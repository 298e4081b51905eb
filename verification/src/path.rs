//! Validation of the relative paths that requests name.

use crate::error::ServerError;
use crate::text::{
    chars_of, join_with, lemma_split_of_join, lemma_split_of_rooted,
    lemma_split_pieces_are_plain, push_range, split_chars, split_on, vec_views, CharSet,
};
use vstd::prelude::*;
use vstd::string::*;

verus! {

/// The characters that separate the segments of a path.
pub open spec fn separators() -> CharSet {
    CharSet::Either('/', '\\')
}

/// The segments of a path: its pieces between separators.
pub open spec fn path_segments(raw: Seq<char>) -> Seq<Seq<char>> {
    split_on(raw, separators())
}

/// Whether the path begins at a root: its first character is a separator.
pub open spec fn is_rooted(raw: Seq<char>) -> bool {
    raw.len() > 0 && separators().has(raw[0])
}

/// The segment `..`, which names the parent directory.
pub open spec fn parent_segment() -> Seq<char> {
    seq!['.', '.']
}

/// The segment `.`, which names the current directory.
pub open spec fn current_segment() -> Seq<char> {
    seq!['.']
}

/// Whether a segment of the path names the parent directory.
pub open spec fn has_parent_segment(raw: Seq<char>) -> bool {
    exists|i: int|
        0 <= i < path_segments(raw).len() && #[trigger] path_segments(raw)[i] == parent_segment()
}

/// Whether a segment is kept: it is a name, neither empty nor `.`.
pub open spec fn is_name(segment: Seq<char>) -> bool {
    segment.len() > 0 && segment != current_segment()
}

/// The names among the segments of a path, in order.
pub open spec fn path_names(raw: Seq<char>) -> Seq<Seq<char>> {
    path_segments(raw).filter(|s: Seq<char>| is_name(s))
}

/// The path in its clean form: its names joined by `/`.
pub open spec fn clean_path(raw: Seq<char>) -> Seq<char> {
    join_with(path_names(raw), seq!['/'])
}

/// The message for a path that begins at a root.
pub open spec fn rooted_message() -> Seq<char> {
    "Absolute or root-relative paths are not allowed"@
}

/// The message for a path with a `..` segment.
pub open spec fn parent_message() -> Seq<char> {
    "Parent '..' segments are not allowed"@
}

/// What validating `raw` gives: the clean path, or the message of the
/// rejection. A path that begins at a root is rejected as such, whatever
/// follows; any other path with a `..` segment is rejected for that.
pub open spec fn validated(raw: Seq<char>) -> Result<Seq<char>, Seq<char>> {
    if is_rooted(raw) {
        Err(rooted_message())
    } else if has_parent_segment(raw) {
        Err(parent_message())
    } else {
        Ok(clean_path(raw))
    }
}

/// A path is contained where it cannot lead out of the directory that it
/// is read below: it does not begin at a root, and each of its segments is a
/// name other than `..`. The empty path, which names the directory itself,
/// is contained too.
pub open spec fn is_contained(path: Seq<char>) -> bool {
    &&& !is_rooted(path)
    &&& !has_parent_segment(path)
    &&& path.len() > 0 ==> forall|i: int|
        0 <= i < path_segments(path).len() ==> is_name(#[trigger] path_segments(path)[i])
}

/// Filtering keeps a sequence whose every element passes.
proof fn lemma_filter_keeps_all(s: Seq<Seq<char>>, keep: spec_fn(Seq<char>) -> bool)
    requires
        forall|i: int| 0 <= i < s.len() ==> keep(#[trigger] s[i]),
    ensures
        s.filter(keep) == s,
    decreases s.len(),
{
    reveal(Seq::filter);
    if s.len() > 0 {
        let front = s.drop_last();
        assert forall|i: int| 0 <= i < front.len() implies keep(#[trigger] front[i]) by {
            assert(front[i] == s[i]);
        }
        lemma_filter_keeps_all(front, keep);
        assert(keep(s[s.len() - 1]));
        assert(front.push(s.last()) =~= s);
    }
}

/// Every name of a path is one of its segments.
proof fn lemma_names_are_segments(raw: Seq<char>, i: int)
    requires
        0 <= i < path_names(raw).len(),
    ensures
        is_name(path_names(raw)[i]),
        exists|k: int|
            0 <= k < path_segments(raw).len() && #[trigger] path_segments(raw)[k] == path_names(
                raw,
            )[i],
{
    let keep = |s: Seq<char>| is_name(s);
    let segments = path_segments(raw);
    segments.lemma_filter_pred(keep, i);
    assert(segments.filter(keep).contains(segments.filter(keep)[i]));
    segments.lemma_filter_contains_rev(keep, segments.filter(keep)[i]);
    let k = choose|k: int| 0 <= k < segments.len() && segments[k] == segments.filter(keep)[i];
    assert(path_segments(raw)[k] == path_names(raw)[i]);
}

/// A path that passes validation comes out contained, and in a form that
/// validation leaves as it is: whatever is joined below a directory after
/// validation names something inside that directory.
pub proof fn lemma_validated_path_is_contained(raw: Seq<char>)
    requires
        validated(raw) is Ok,
    ensures
        is_contained(validated(raw)->Ok_0),
        validated(validated(raw)->Ok_0) == validated(raw),
{
    let names = path_names(raw);
    let clean = clean_path(raw);
    let keep = |s: Seq<char>| is_name(s);
    let empty = Seq::<char>::empty();
    if names.len() == 0 {
        assert(clean =~= empty);
        assert(path_segments(empty) =~= seq![empty]);
        assert(!has_parent_segment(empty)) by {
            if has_parent_segment(empty) {
                let i = choose|i: int|
                    0 <= i < path_segments(empty).len() && #[trigger] path_segments(empty)[i]
                        == parent_segment();
                assert(path_segments(empty)[i] == empty);
                assert(parent_segment().len() == 2);
            }
        }
        assert(path_names(empty) =~= Seq::<Seq<char>>::empty()) by {
            reveal_with_fuel(Seq::filter, 2);
            assert(seq![empty].drop_last() =~= Seq::<Seq<char>>::empty());
        }
    } else {
        assert forall|i: int, j: int|
            0 <= i < names.len() && 0 <= j < names[i].len() implies !separators().has(
            #[trigger] names[i][j],
        ) by {
            lemma_names_are_segments(raw, i);
            let k = choose|k: int|
                0 <= k < path_segments(raw).len() && #[trigger] path_segments(raw)[k] == names[i];
            lemma_split_pieces_are_plain(raw, separators(), k, j);
        }
        lemma_split_of_join(names, '/', separators());
        assert(path_segments(clean) == names);
        assert forall|i: int| 0 <= i < names.len() implies keep(#[trigger] names[i]) by {
            lemma_names_are_segments(raw, i);
        }
        lemma_filter_keeps_all(names, keep);
        assert(path_names(clean) == names);
        assert(!is_rooted(clean)) by {
            if is_rooted(clean) {
                lemma_split_of_rooted(clean, separators());
                lemma_names_are_segments(raw, 0);
            }
        }
        assert(!has_parent_segment(clean)) by {
            if has_parent_segment(clean) {
                let i = choose|i: int|
                    0 <= i < path_segments(clean).len() && #[trigger] path_segments(clean)[i]
                        == parent_segment();
                lemma_names_are_segments(raw, i);
                let k = choose|k: int|
                    0 <= k < path_segments(raw).len() && #[trigger] path_segments(raw)[k]
                        == names[i];
                assert(path_segments(raw)[k] == parent_segment());
            }
        }
        assert forall|i: int| 0 <= i < path_segments(clean).len() implies is_name(
            #[trigger] path_segments(clean)[i],
        ) by {
            lemma_names_are_segments(raw, i);
        }
    }
}

/// Whether `segment` is `..`.
fn is_parent(segment: &Vec<char>) -> (r: bool)
    ensures
        r == (segment@ == parent_segment()),
{
    if segment.len() == 2 && segment[0] == '.' && segment[1] == '.' {
        assert(segment@ =~= parent_segment());
        true
    } else {
        false
    }
}

/// Whether `segment` is a name.
fn is_kept(segment: &Vec<char>) -> (r: bool)
    ensures
        r == is_name(segment@),
{
    if segment.len() == 0 {
        false
    } else if segment.len() == 1 && segment[0] == '.' {
        assert(segment@ =~= current_segment());
        false
    } else {
        true
    }
}

/// Checks a path that a request names and brings it into its clean form.
/// Names are kept, empty segments and `.` are dropped; a path that begins
/// at a root or holds a `..` segment is rejected as a bad request.
pub fn validate_rel_path(raw: &str) -> (r: Result<String, ServerError>)
    ensures
        match r {
            Ok(path) => validated(raw@) == Ok::<Seq<char>, Seq<char>>(path@),
            Err(e) => e matches ServerError::BadRequest(message) && validated(raw@) == Err::<
                Seq<char>,
                Seq<char>,
            >(message@),
        },
{
    let chars = chars_of(raw);
    if chars.len() > 0 && (chars[0] == '/' || chars[0] == '\\') {
        return Err(
            ServerError::BadRequest("Absolute or root-relative paths are not allowed".to_owned()),
        );
    }
    let segments = split_chars(&chars, CharSet::Either('/', '\\'));
    let ghost all = path_segments(raw@);
    let ghost keep = |s: Seq<char>| is_name(s);
    let mut out = String::new();
    let mut first = true;
    let mut i: usize = 0;
    proof {
        reveal(Seq::filter);
        assert(all.take(0).filter(keep) =~= Seq::<Seq<char>>::empty());
    }
    while i < segments.len()
        invariant
            i <= segments.len(),
            vec_views(segments@) == all,
            all == path_segments(raw@),
            !is_rooted(raw@),
            keep == (|s: Seq<char>| is_name(s)),
            forall|j: int| 0 <= j < i ==> all[j] != parent_segment(),
            first == (all.take(i as int).filter(keep).len() == 0),
            out@ == join_with(all.take(i as int).filter(keep), seq!['/']),
        decreases segments.len() - i,
    {
        let segment = &segments[i];
        assert(all[i as int] == segment@);
        if is_parent(segment) {
            assert(path_segments(raw@)[i as int] == parent_segment());
            return Err(ServerError::BadRequest("Parent '..' segments are not allowed".to_owned()));
        }
        let ghost kept_before = all.take(i as int).filter(keep);
        proof {
            reveal(Seq::filter);
            assert(all.take(i + 1).drop_last() =~= all.take(i as int));
            assert(all.take(i + 1).last() == segment@);
        }
        if is_kept(segment) {
            if !first {
                out.push('/');
            }
            push_range(&mut out, segment, 0, segment.len());
            first = false;
            proof {
                let kept_after = all.take(i + 1).filter(keep);
                assert(kept_after == kept_before.push(segment@));
                assert(kept_after.drop_last() =~= kept_before);
                assert(segment@.subrange(0, segment@.len() as int) =~= segment@);
                assert(out@ =~= join_with(kept_after, seq!['/']));
            }
        }
        i += 1;
    }
    proof {
        assert(all.take(segments.len() as int) =~= all);
        assert(!has_parent_segment(raw@));
    }
    Ok(out)
}

} // verus!
