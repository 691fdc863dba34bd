use vstd::prelude::*;

verus! {

/// What `str::to_lowercase` returns for a string: its lowercase mapping under
/// the Unicode tables of the standard library.
pub uninterp spec fn lowercase(s: Seq<char>) -> Seq<char>;

/// `str::to_lowercase`: the result is the lowercase mapping of the argument,
/// a function of the argument alone, and the empty string's is empty; the
/// mapping itself is not stated here.
#[verifier::external_body]
fn to_lowercase(s: &str) -> (r: String)
    ensures
        r@ == lowercase(s@),
        s@.len() == 0 ==> r@.len() == 0,
{
    s.to_lowercase()
}

/// Whether `needle` occurs in `hay` at position `i`.
pub open spec fn occurs_at(hay: Seq<char>, needle: Seq<char>, i: int) -> bool {
    0 <= i && i + needle.len() <= hay.len() && hay.subrange(i, i + needle.len()) == needle
}

/// Whether `needle` occurs somewhere in `hay` (the empty text occurs everywhere).
pub open spec fn occurs_in(hay: Seq<char>, needle: Seq<char>) -> bool {
    exists|i: int| occurs_at(hay, needle, i)
}

/// Whether `needle` occurs in `hay`, as `str::contains` decides it.
pub fn contains_text(hay: &str, needle: &str) -> (r: bool)
    ensures
        r == occurs_in(hay@, needle@),
{
    let n = hay.unicode_len();
    let m = needle.unicode_len();
    if m > n {
        proof {
            assert forall|i: int| !occurs_at(hay@, needle@, i) by {}
        }
        return false;
    }
    let mut i: usize = 0;
    while i <= n - m
        invariant
            n == hay@.len(),
            m == needle@.len(),
            m <= n,
            i <= n - m + 1,
            forall|k: int| 0 <= k < i ==> !occurs_at(hay@, needle@, k),
        decreases n - m + 1 - i,
    {
        let mut j: usize = 0;
        while j < m && hay.get_char(i + j) == needle.get_char(j)
            invariant
                n == hay@.len(),
                m == needle@.len(),
                i + m <= n,
                j <= m,
                forall|k: int| 0 <= k < j ==> hay@[i + k] == needle@[k],
            decreases m - j,
        {
            j = j + 1;
        }
        if j == m {
            proof {
                assert(hay@.subrange(i as int, i + m) =~= needle@);
                assert(occurs_at(hay@, needle@, i as int));
            }
            return true;
        }
        proof {
            assert(hay@[i + j] != needle@[j as int]);
            if occurs_at(hay@, needle@, i as int) {
                assert(hay@.subrange(i as int, i + m)[j as int] == hay@[i + j]);
            }
        }
        i = i + 1;
    }
    proof {
        assert forall|k: int| !occurs_at(hay@, needle@, k) by {
            if 0 <= k < i {
            }
        }
    }
    false
}

/// The pattern that paths are matched against: the requested one, lowercased.
pub fn path_pattern(pattern: &str) -> (r: String)
    ensures
        r@ == lowercase(pattern@),
        pattern@.len() == 0 ==> r@ == Seq::<char>::empty(),
        pattern@.len() == 0 ==> forall|p: Seq<char>| #[trigger] path_matches(p, r@),
{
    let r = to_lowercase(pattern);
    proof {
        if pattern@.len() == 0 {
            assert(r@ =~= Seq::<char>::empty());
            assert forall|p: Seq<char>| #[trigger] path_matches(p, r@) by {
                law_empty_pattern_matches_every_path(p);
            }
        }
    }
    r
}

/// Whether a path, relative to the working directory, matches a lowercased
/// pattern: its lowercase form contains the pattern.
pub open spec fn path_matches(relative_path: Seq<char>, pattern: Seq<char>) -> bool {
    occurs_in(lowercase(relative_path), pattern)
}

/// Whether the walk of the working directory keeps an entry (and, for a
/// directory, descends into it): the walk's root always; otherwise a directory,
/// or a path that matches the pattern, provided git reports it as not ignored.
/// A failed ignore lookup (`None`) counts as ignored.
pub open spec fn walk_keeps(
    is_root: bool,
    is_dir: bool,
    relative_path: Seq<char>,
    pattern: Seq<char>,
    ignored: Option<bool>,
) -> bool {
    is_root || ((is_dir || path_matches(relative_path, pattern)) && ignored == Some(false))
}

/// What the walk needs in order to decide on an entry.
#[derive(Clone, Copy, Debug, PartialEq, Eq, Structural)]
pub enum WalkDecision {
    /// Keep the entry whatever git says of it (the walk's root).
    Keep,
    /// Drop the entry whatever git says of it.
    Skip,
    /// Keep the entry exactly when git reports it as not ignored.
    KeepUnlessIgnored,
}

/// Decides on a walked entry before git is asked whether it is ignored, so that
/// git is asked only where its answer matters: the decision agrees with
/// `walk_keeps` for every answer of the ignore lookup.
pub fn walk_decision(is_root: bool, is_dir: bool, relative_path: &str, pattern: &str) -> (r:
    WalkDecision)
    ensures
        r == WalkDecision::Keep <==> is_root,
        r == WalkDecision::KeepUnlessIgnored <==> (!is_root && (is_dir || path_matches(
            relative_path@,
            pattern@,
        ))),
        forall|ignored: Option<bool>|
            #[trigger] walk_keeps(is_root, is_dir, relative_path@, pattern@, ignored) == match r {
                WalkDecision::Keep => true,
                WalkDecision::Skip => false,
                WalkDecision::KeepUnlessIgnored => ignored == Some(false),
            },
{
    if is_root {
        return WalkDecision::Keep;
    }
    let wanted = is_dir || {
        let lower = to_lowercase(relative_path);
        contains_text(lower.as_str(), pattern)
    };
    if wanted {
        WalkDecision::KeepUnlessIgnored
    } else {
        WalkDecision::Skip
    }
}

/// Whether an entry that is kept unless ignored is kept, from the ignore
/// lookup's answer (`None` when the lookup failed, which counts as ignored).
pub fn kept_unless_ignored(ignored: Option<bool>) -> (r: bool)
    ensures
        r == (ignored == Some(false)),
{
    match ignored {
        Some(b) => !b,
        None => false,
    }
}

/// Whether `a` comes before `b` or equals it, comparing character by character
/// (the order of `String`, since UTF-8 keeps the order of code points).
pub open spec fn text_le(a: Seq<char>, b: Seq<char>) -> bool
    decreases a.len(),
{
    if a.len() == 0 {
        true
    } else if b.len() == 0 {
        false
    } else if a[0] != b[0] {
        (a[0] as int) < (b[0] as int)
    } else {
        text_le(a.drop_first(), b.drop_first())
    }
}

/// Any two texts are ordered one way or the other.
pub proof fn lemma_text_le_total(a: Seq<char>, b: Seq<char>)
    ensures
        text_le(a, b) || text_le(b, a),
    decreases a.len(),
{
    if a.len() > 0 && b.len() > 0 && a[0] == b[0] {
        lemma_text_le_total(a.drop_first(), b.drop_first());
    }
}

/// The order of texts is transitive.
pub proof fn lemma_text_le_transitive(a: Seq<char>, b: Seq<char>, c: Seq<char>)
    requires
        text_le(a, b),
        text_le(b, c),
    ensures
        text_le(a, c),
    decreases a.len(),
{
    if a.len() > 0 && b.len() > 0 && c.len() > 0 && a[0] == b[0] && b[0] == c[0] {
        lemma_text_le_transitive(a.drop_first(), b.drop_first(), c.drop_first());
    }
}

/// Compares two texts in the order of `text_le`.
fn text_le_exec(a: &String, b: &String) -> (r: bool)
    ensures
        r == text_le(a@, b@),
{
    let n = a.as_str().unicode_len();
    let m = b.as_str().unicode_len();
    let mut i: usize = 0;
    assert(a@.skip(0) =~= a@);
    assert(b@.skip(0) =~= b@);
    while i < n && i < m
        invariant
            n == a@.len(),
            m == b@.len(),
            i <= n,
            i <= m,
            text_le(a@, b@) == text_le(a@.skip(i as int), b@.skip(i as int)),
        decreases n - i,
    {
        let x = a.as_str().get_char(i);
        let y = b.as_str().get_char(i);
        assert(a@.skip(i as int)[0] == x);
        assert(b@.skip(i as int)[0] == y);
        if x != y {
            return (x as u32) < (y as u32);
        }
        assert(a@.skip(i as int).drop_first() =~= a@.skip(i + 1));
        assert(b@.skip(i as int).drop_first() =~= b@.skip(i + 1));
        i = i + 1;
    }
    i == n
}

/// Whether a sequence of paths is in ascending order.
pub open spec fn paths_sorted(s: Seq<String>) -> bool {
    forall|i: int, j: int| 0 <= i < j < s.len() ==> text_le(s[i]@, s[j]@)
}

/// Sorts paths into ascending order, as `sort` on a vector of `String`s does.
pub fn sort_paths(paths: Vec<String>) -> (r: Vec<String>)
    ensures
        paths_sorted(r@),
        r@.to_multiset() == paths@.to_multiset(),
{
    broadcast use vstd::seq_lib::group_to_multiset_ensures;

    let mut rest = paths;
    let mut sorted: Vec<String> = Vec::new();
    while rest.len() > 0
        invariant
            paths_sorted(sorted@),
            sorted@.to_multiset().add(rest@.to_multiset()) == paths@.to_multiset(),
        decreases rest@.len(),
    {
        let ghost before = rest@;
        let x = rest.pop().unwrap();
        proof {
            assert(before == rest@.push(x));
            vstd::seq_lib::to_multiset_build(rest@, x);
        }
        let mut pos: usize = 0;
        while pos < sorted.len() && text_le_exec(&sorted[pos], &x)
            invariant
                pos <= sorted@.len(),
                forall|k: int| 0 <= k < pos ==> text_le(sorted@[k]@, x@),
            decreases sorted@.len() - pos,
        {
            pos = pos + 1;
        }
        let ghost old_sorted = sorted@;
        proof {
            if pos < old_sorted.len() {
                lemma_text_le_total(old_sorted[pos as int]@, x@);
            }
        }
        sorted.insert(pos, x);
        proof {
            vstd::seq_lib::to_multiset_insert(old_sorted, pos as int, x);
            assert forall|i: int, j: int| 0 <= i < j < sorted@.len() implies text_le(
                sorted@[i]@,
                sorted@[j]@,
            ) by {
                if j == pos {
                    assert(sorted@[i] == old_sorted[i]);
                } else if i == pos {
                    assert(sorted@[j] == old_sorted[j - 1]);
                    if j - 1 > pos {
                        lemma_text_le_transitive(x@, old_sorted[pos as int]@, old_sorted[j - 1]@);
                    }
                } else if i < pos && j < pos {
                } else if i < pos {
                    assert(sorted@[j] == old_sorted[j - 1]);
                    assert(sorted@[i] == old_sorted[i]);
                } else {
                    assert(sorted@[j] == old_sorted[j - 1]);
                    assert(sorted@[i] == old_sorted[i - 1]);
                }
            }
            assert(sorted@.to_multiset().add(rest@.to_multiset()) =~= paths@.to_multiset());
        }
    }
    proof {
        assert(rest@ =~= Seq::<String>::empty());
        assert(sorted@.to_multiset().add(rest@.to_multiset()) =~= sorted@.to_multiset());
    }
    sorted
}

/// The empty pattern matches every path, so the walk then keeps every entry
/// that git does not ignore.
pub proof fn law_empty_pattern_matches_every_path(relative_path: Seq<char>)
    ensures
        path_matches(relative_path, Seq::empty()),
{
    assert(lowercase(relative_path).subrange(0, 0) =~= Seq::<char>::empty());
    assert(occurs_at(lowercase(relative_path), Seq::empty(), 0));
}

/// The walk always keeps its root, and never keeps an entry that git ignores
/// or whose ignore lookup failed.
pub proof fn law_walk_keeps_root_and_drops_ignored(
    is_root: bool,
    is_dir: bool,
    relative_path: Seq<char>,
    pattern: Seq<char>,
    ignored: Option<bool>,
)
    ensures
        is_root ==> walk_keeps(is_root, is_dir, relative_path, pattern, ignored),
        !is_root && ignored != Some(false) ==> !walk_keeps(is_root, is_dir, relative_path, pattern, ignored),
        !is_root && ignored == Some(false) ==> (walk_keeps(is_root, is_dir, relative_path, pattern, ignored)
            <==> (is_dir || occurs_in(lowercase(relative_path), pattern))),
{
}

/// Whether `a` is a prefix of `b`.
pub open spec fn is_prefix_of(a: Seq<char>, b: Seq<char>) -> bool {
    a.len() <= b.len() && b.subrange(0, a.len() as int) == a
}

/// Whether `a` and `b` agree before position `i` and `a` has the smaller
/// character (by code point) at `i`.
pub open spec fn smaller_at(a: Seq<char>, b: Seq<char>, i: int) -> bool {
    0 <= i < a.len() && i < b.len() && a.subrange(0, i) == b.subrange(0, i) && (a[i] as int) < (
    b[i] as int)
}

/// The order of paths is the lexicographic order of code points, the order of
/// `String`: `a` comes before `b` or equals it exactly when `a` is a prefix of
/// `b` or has the smaller character where they first differ.
pub proof fn law_text_order_is_code_point_order(a: Seq<char>, b: Seq<char>)
    ensures
        text_le(a, b) <==> (is_prefix_of(a, b) || exists|i: int| smaller_at(a, b, i)),
    decreases a.len(),
{
    if a.len() == 0 {
        assert(b.subrange(0, 0) =~= a);
    } else if b.len() == 0 {
        assert forall|i: int| !smaller_at(a, b, i) by {}
    } else if a[0] != b[0] {
        if (a[0] as int) < (b[0] as int) {
            assert(a.subrange(0, 0) =~= b.subrange(0, 0));
            assert(smaller_at(a, b, 0));
        } else {
            assert(!is_prefix_of(a, b)) by {
                if is_prefix_of(a, b) {
                    assert(b.subrange(0, a.len() as int)[0] == b[0]);
                }
            }
            assert forall|i: int| !smaller_at(a, b, i) by {
                if smaller_at(a, b, i) && i > 0 {
                    assert(a.subrange(0, i)[0] == b.subrange(0, i)[0]);
                }
            }
        }
    } else {
        let a1 = a.drop_first();
        let b1 = b.drop_first();
        law_text_order_is_code_point_order(a1, b1);
        if is_prefix_of(a, b) {
            assert(b1.subrange(0, a1.len() as int) =~= b.subrange(0, a.len() as int).drop_first());
        }
        if is_prefix_of(a1, b1) {
            assert(b.subrange(0, a.len() as int) =~= seq![b[0]] + b1.subrange(0, a1.len() as int));
            assert(a =~= seq![a[0]] + a1);
        }
        if exists|i: int| smaller_at(a, b, i) {
            let i = choose|i: int| smaller_at(a, b, i);
            if i == 0 {
            } else {
                assert(a1.subrange(0, i - 1) =~= a.subrange(0, i).drop_first());
                assert(b1.subrange(0, i - 1) =~= b.subrange(0, i).drop_first());
                assert(smaller_at(a1, b1, i - 1));
            }
        }
        if exists|i: int| smaller_at(a1, b1, i) {
            let i = choose|i: int| smaller_at(a1, b1, i);
            assert(a.subrange(0, i + 1) =~= seq![a[0]] + a1.subrange(0, i));
            assert(b.subrange(0, i + 1) =~= seq![b[0]] + b1.subrange(0, i));
            assert(smaller_at(a, b, i + 1));
        }
    }
}

/// Two texts that each come before or equal the other are equal.
pub proof fn law_text_order_is_antisymmetric(a: Seq<char>, b: Seq<char>)
    requires
        text_le(a, b),
        text_le(b, a),
    ensures
        a == b,
    decreases a.len(),
{
    if a.len() > 0 && b.len() > 0 {
        law_text_order_is_antisymmetric(a.drop_first(), b.drop_first());
        assert(a =~= seq![a[0]] + a.drop_first());
        assert(b =~= seq![b[0]] + b.drop_first());
    } else {
        assert(a =~= b);
    }
}

} // verus!
