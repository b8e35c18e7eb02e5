//! Path segments and their serialization into a URI path.
//!
//! A chain of segments is serialized root-to-leaf: each segment appends
//! `/` + its word when the word is non-empty, then `/` + its value when
//! a value was drawn from the configuration.  A segment with an empty
//! word and no value contributes nothing and serves purely as a link.

use vstd::prelude::*;
use vstd::string::*;

use crate::request::{RequestConfig, RequestPart, SerialiseRequestPart};

verus! {

/// The mathematical shape of one path segment.
pub struct SegView {
    pub word: Seq<char>,
    pub value: Option<Seq<char>>,
}

/// One unit of a URI path: a literal word (possibly empty) and an
/// optional configuration-derived value.
pub struct PathSegment {
    pub word: String,
    pub value: Option<String>,
}

impl View for PathSegment {
    type V = SegView;

    open spec fn view(&self) -> SegView {
        SegView {
            word: self.word@,
            value: match self.value {
                Some(v) => Some(v@),
                None => None,
            },
        }
    }
}

/// The views of a sequence of segments.
pub open spec fn views_of(parts: Seq<PathSegment>) -> Seq<SegView> {
    parts.map_values(|p: PathSegment| p@)
}

/// The bytes one segment contributes to a path.
pub open spec fn seg_str(s: SegView) -> Seq<char> {
    (if s.word.len() > 0 {
        seq!['/'] + s.word
    } else {
        Seq::empty()
    }) + (match s.value {
        Some(v) => seq!['/'] + v,
        None => Seq::empty(),
    })
}

/// The full path contributed by a chain of segments, root-most first.
pub open spec fn path_of(parts: Seq<SegView>) -> Seq<char>
    decreases parts.len(),
{
    if parts.len() == 0 {
        Seq::empty()
    } else {
        path_of(parts.drop_last()) + seg_str(parts.last())
    }
}

/// A segment with an empty word and no value contributes no path bytes:
/// inserting such a link anywhere in a chain leaves the serialized path
/// unchanged.
pub proof fn lemma_blank_segment_noop(segs: Seq<SegView>, i: int, blank: SegView)
    requires
        0 <= i <= segs.len(),
        blank.word.len() == 0,
        blank.value is None,
    ensures
        path_of(segs.insert(i, blank)) == path_of(segs),
    decreases segs.len(),
{
    assert(seg_str(blank) =~= Seq::<char>::empty());
    let ext = segs.insert(i, blank);
    if i == segs.len() {
        assert(ext.drop_last() =~= segs);
        assert(ext.last() == blank);
        assert(path_of(ext) =~= path_of(segs));
    } else {
        assert(ext.drop_last() =~= segs.drop_last().insert(i, blank));
        assert(ext.last() == segs.last());
        lemma_blank_segment_noop(segs.drop_last(), i, blank);
        assert(segs.len() > 0);
        assert(path_of(ext) == path_of(segs.drop_last().insert(i, blank)) + seg_str(segs.last()));
        assert(path_of(ext) =~= path_of(segs));
    }
}

/// Relies on alloc's `String::push`: appends exactly the given character.
pub assume_specification[ String::push ](s: &mut String, c: char)
    ensures
        final(s)@ == old(s)@ + seq![c],
;

/// Appends one segment's contribution to `s`.
fn append_segment(s: &mut String, seg: &PathSegment)
    ensures
        final(s)@ == old(s)@ + seg_str(seg@),
{
    if !seg.word.as_str().is_empty() {
        s.push('/');
        s.append(seg.word.as_str());
    }
    match &seg.value {
        Some(v) => {
            s.push('/');
            s.append(v.as_str());
        },
        None => {},
    }
    proof {
        assert(s@ =~= old(s)@ + seg_str(seg@));
    }
}

/// Appends the whole chain's path to `s`, root-most segment first.
pub fn append_path(s: &mut String, parts: &Vec<PathSegment>)
    ensures
        final(s)@ == old(s)@ + path_of(views_of(parts@)),
{
    let ghost orig = s@;
    let mut i: usize = 0;
    while i < parts.len()
        invariant
            i <= parts.len(),
            s@ == orig + path_of(views_of(parts@).take(i as int)),
        decreases parts.len() - i,
    {
        append_segment(s, &parts[i]);
        proof {
            let vs = views_of(parts@);
            assert(vs.take(i + 1 as int).drop_last() =~= vs.take(i as int));
            assert(vs.take(i + 1 as int).last() == parts@[i as int]@);
        }
        i += 1;
    }
    proof {
        assert(views_of(parts@).take(parts.len() as int) =~= views_of(parts@));
    }
}

/// The sentinel that ends every chain: an empty word, no value, and so
/// no path bytes.
impl RequestPart for () {

}

impl<C: RequestConfig> SerialiseRequestPart<C> for () {
    open spec fn spec_parts(c: C) -> Seq<SegView> {
        Seq::empty()
    }

    fn parts(_config: &C) -> (v: Vec<PathSegment>) {
        let v: Vec<PathSegment> = Vec::new();
        proof {
            assert(views_of(v@) =~= Seq::<SegView>::empty());
        }
        v
    }
}

} // verus!
