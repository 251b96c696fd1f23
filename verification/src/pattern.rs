//! Path patterns.
//!
//! A pattern is written like a path. Each of its segments is a literal, a
//! named parameter (`:name`) or the wildcard (`*`). A literal stands for
//! itself, a parameter for any segment that is not empty, and the wildcard,
//! which can only come last, for whatever is left of the path.

use vstd::prelude::*;
use vstd::string::StringSliceAdditionalSpecFns;
use crate::octets::{owned_bytes, same_bytes};
use crate::params::Params;
use crate::path::{part_views, segments_of, split_path};

verus! {

/// The byte that opens a named parameter.
pub const COLON: u8 = 58;

/// The byte that stands alone for the wildcard.
pub const STAR: u8 = 42;

/// What a segment of a pattern is.
pub enum SegmentView {
    Literal(Seq<u8>),
    Param(Seq<u8>),
    Wildcard,
}

/// One segment of a pattern.
#[derive(Debug)]
pub enum Segment {
    /// Stands for the segment that has exactly these bytes.
    Literal(Vec<u8>),
    /// Stands for any segment that is not empty, and binds it to this name.
    Param(Vec<u8>),
    /// Stands for the rest of the path.
    Wildcard,
}

impl View for Segment {
    type V = SegmentView;

    open spec fn view(&self) -> SegmentView {
        match self {
            Segment::Literal(bytes) => SegmentView::Literal(bytes@),
            Segment::Param(name) => SegmentView::Param(name@),
            Segment::Wildcard => SegmentView::Wildcard,
        }
    }
}

/// Why a byte string is not a pattern.
#[derive(Clone, Copy, Debug, PartialEq, Eq, Structural)]
pub enum PatternError {
    /// A segment is a lone `:`, a parameter without a name.
    EmptyParamName,
    /// A wildcard is followed by another segment.
    WildcardNotLast,
}

/// What the segment `part` of a pattern means.
pub open spec fn classify(part: Seq<u8>) -> SegmentView {
    if part.len() == 1 && part[0] == STAR {
        SegmentView::Wildcard
    } else if part.len() > 0 && part[0] == COLON {
        SegmentView::Param(part.skip(1))
    } else {
        SegmentView::Literal(part)
    }
}

/// The segments that the text `src` of a pattern describes.
pub open spec fn described(src: Seq<u8>) -> Seq<SegmentView> {
    let parts = segments_of(src);
    Seq::new(parts.len(), |i: int| classify(parts[i]))
}

/// Whether one of the first `n` segments is a parameter without a name.
pub open spec fn nameless_param_before(segments: Seq<SegmentView>, n: int) -> bool {
    exists|k: int|
        0 <= k < n && k < segments.len() && #[trigger] segments[k] == SegmentView::Param(
            Seq::<u8>::empty(),
        )
}

/// Whether one of the first `n` segments is a wildcard that is not the last
/// segment.
pub open spec fn early_wildcard_before(segments: Seq<SegmentView>, n: int) -> bool {
    exists|k: int|
        0 <= k < n && k < segments.len() - 1 && #[trigger] segments[k] == SegmentView::Wildcard
}

/// What is wrong with `segments` as a pattern, if anything. A parameter
/// without a name is reported before a misplaced wildcard.
pub open spec fn fault(segments: Seq<SegmentView>) -> Option<PatternError> {
    if nameless_param_before(segments, segments.len() as int) {
        Some(PatternError::EmptyParamName)
    } else if early_wildcard_before(segments, segments.len() as int) {
        Some(PatternError::WildcardNotLast)
    } else {
        None
    }
}

/// Whether `segments` ends in a wildcard.
pub open spec fn has_tail(segments: Seq<SegmentView>) -> bool {
    segments.len() > 0 && segments.last() == SegmentView::Wildcard
}

/// The number of segments before the wildcard, if there is one, and of all
/// segments otherwise.
pub open spec fn fixed_len(segments: Seq<SegmentView>) -> int {
    if has_tail(segments) {
        segments.len() - 1
    } else {
        segments.len() as int
    }
}

/// Whether the segment `segment` of a pattern stands for the segment `part`
/// of a path.
pub open spec fn accepts(segment: SegmentView, part: Seq<u8>) -> bool {
    match segment {
        SegmentView::Literal(bytes) => part == bytes,
        SegmentView::Param(_) => part.len() > 0,
        SegmentView::Wildcard => true,
    }
}

/// Whether the pattern `segments` matches the path with the segments
/// `parts`: segment by segment, with as many segments on both sides, unless
/// the pattern ends in a wildcard, which takes whatever is left.
pub open spec fn pattern_matches(segments: Seq<SegmentView>, parts: Seq<Seq<u8>>) -> bool {
    &&& if has_tail(segments) {
        parts.len() >= segments.len() - 1
    } else {
        parts.len() == segments.len()
    }
    &&& forall|i: int|
        0 <= i < fixed_len(segments) ==> accepts(#[trigger] segments[i], parts[i])
}

/// The bindings that the first `n` segments of the pattern make on `parts`:
/// one for each parameter, in order.
pub open spec fn bindings_upto(segments: Seq<SegmentView>, parts: Seq<Seq<u8>>, n: nat) -> Seq<
    (Seq<u8>, Seq<u8>),
>
    decreases n,
{
    if n == 0 {
        Seq::<(Seq<u8>, Seq<u8>)>::empty()
    } else {
        let before = bindings_upto(segments, parts, (n - 1) as nat);
        match segments[n - 1] {
            SegmentView::Param(name) => before.push((name, parts[n - 1])),
            _ => before,
        }
    }
}

/// The bindings that the pattern `segments` makes on `parts`.
pub open spec fn bindings(segments: Seq<SegmentView>, parts: Seq<Seq<u8>>) -> Seq<
    (Seq<u8>, Seq<u8>),
> {
    bindings_upto(segments, parts, fixed_len(segments) as nat)
}

/// What a list of segments is.
pub open spec fn segment_views(segments: Seq<Segment>) -> Seq<SegmentView> {
    Seq::new(segments.len(), |i: int| segments[i]@)
}

/// Reads one segment of a pattern.
fn read_segment(part: &[u8]) -> (r: Segment)
    ensures
        r@ == classify(part@),
{
    if part.len() == 1 && part[0] == STAR {
        Segment::Wildcard
    } else if part.len() > 0 && part[0] == COLON {
        let name = owned_bytes(vstd::slice::slice_subrange(part, 1, part.len()));
        assert(name@ =~= part@.skip(1));
        Segment::Param(name)
    } else {
        Segment::Literal(owned_bytes(part))
    }
}

/// Whether two segments are the same.
fn same_segment(a: &Segment, b: &Segment) -> (r: bool)
    ensures
        r == (a@ == b@),
{
    match (a, b) {
        (Segment::Literal(x), Segment::Literal(y)) => same_bytes(x.as_slice(), y.as_slice()),
        (Segment::Param(x), Segment::Param(y)) => same_bytes(x.as_slice(), y.as_slice()),
        (Segment::Wildcard, Segment::Wildcard) => true,
        _ => false,
    }
}

/// A path pattern: its segments, with every parameter named and a wildcard
/// only in the last place.
#[derive(Debug)]
pub struct Pattern {
    segments: Vec<Segment>,
}

impl View for Pattern {
    type V = Seq<SegmentView>;

    closed spec fn view(&self) -> Seq<SegmentView> {
        segment_views(self.segments@)
    }
}

impl Pattern {
    /// Every pattern is free of faults.
    #[verifier::type_invariant]
    pub open spec fn well_formed(self) -> bool {
        fault(self@) is None
    }

    /// Reads the pattern that `src` describes. A text with a fault is no
    /// pattern, and the fault is reported.
    pub fn parse(src: &str) -> (r: Result<Pattern, PatternError>)
        ensures
            match r {
                Ok(pattern) => fault(described(src.spec_bytes())) is None && pattern@ == described(
                    src.spec_bytes(),
                ) && pattern.well_formed(),
                Err(error) => fault(described(src.spec_bytes())) == Some(error),
            },
    {
        let parts = split_path(src.as_bytes());
        let ghost target = described(src.spec_bytes());
        let mut segments: Vec<Segment> = Vec::new();
        let mut nameless = false;
        let mut early = false;
        let mut i: usize = 0;
        while i < parts.len()
            invariant
                i <= parts@.len(),
                target.len() == parts@.len(),
                forall|k: int| 0 <= k < parts@.len() ==> #[trigger] target[k] == classify(parts@[k]@),
                segment_views(segments@) == target.take(i as int),
                nameless == nameless_param_before(target, i as int),
                early == early_wildcard_before(target, i as int),
            decreases parts@.len() - i,
        {
            let segment = read_segment(parts[i].as_slice());
            assert(segment@ == target[i as int]);
            match &segment {
                Segment::Param(name) => {
                    if name.len() == 0 {
                        nameless = true;
                        assert(name@ =~= Seq::<u8>::empty());
                        assert(target[i as int] == SegmentView::Param(Seq::<u8>::empty()));
                    }
                },
                Segment::Wildcard => {
                    if i + 1 < parts.len() {
                        early = true;
                    }
                },
                Segment::Literal(_) => {},
            }
            let ghost before = segments@;
            assert(segment_views(before).len() == i);
            segments.push(segment);
            assert forall|k: int| 0 <= k < i + 1 implies segment_views(segments@)[k] == target.take(
                i + 1,
            )[k] by {
                if k < i {
                    assert(segment_views(before)[k] == target.take(i as int)[k]);
                }
            }
            assert(segment_views(segments@) =~= target.take(i + 1));
            i += 1;
        }
        assert(target.take(i as int) =~= target);
        if nameless {
            Err(PatternError::EmptyParamName)
        } else if early {
            Err(PatternError::WildcardNotLast)
        } else {
            Ok(Pattern { segments })
        }
    }

    /// The number of segments.
    pub fn len(&self) -> (r: usize)
        ensures
            r == self@.len(),
    {
        self.segments.len()
    }

    /// Whether the pattern is the same as `other`: the same segments in the
    /// same order, parameter names included.
    pub fn same_as(&self, other: &Pattern) -> (r: bool)
        ensures
            r == (self@ == other@),
    {
        if self.segments.len() != other.segments.len() {
            assert(self@.len() != other@.len());
            return false;
        }
        let mut i: usize = 0;
        while i < self.segments.len()
            invariant
                i <= self.segments@.len(),
                self.segments@.len() == other.segments@.len(),
                forall|k: int| 0 <= k < i ==> self@[k] == other@[k],
            decreases self.segments@.len() - i,
        {
            if !same_segment(&self.segments[i], &other.segments[i]) {
                assert(self@[i as int] != other@[i as int]);
                return false;
            }
            i += 1;
        }
        assert(self@ =~= other@);
        true
    }

    /// Holds the pattern against the segments `parts` of a path. Where it
    /// matches, the result is the bindings of its parameters; where it does
    /// not, there is none.
    pub fn capture(&self, parts: &Vec<Vec<u8>>) -> (r: Option<Params>)
        ensures
            r is Some <==> pattern_matches(self@, part_views(parts@)),
            r matches Some(params) ==> params@ == bindings(self@, part_views(parts@)),
    {
        proof {
            use_type_invariant(self);
        }
        let ghost given = part_views(parts@);
        let n = self.segments.len();
        let mut params = Params::new();
        let mut i: usize = 0;
        while i < n
            invariant
                i <= n,
                n == self@.len(),
                fault(self@) is None,
                given == part_views(parts@),
                i <= given.len(),
                forall|k: int| 0 <= k < i ==> self@[k] != SegmentView::Wildcard,
                forall|k: int| 0 <= k < i ==> accepts(#[trigger] self@[k], given[k]),
                params@ == bindings_upto(self@, given, i as nat),
            decreases n - i,
        {
            match &self.segments[i] {
                Segment::Wildcard => {
                    assert(self@[i as int] == SegmentView::Wildcard);
                    assert(!early_wildcard_before(self@, n as int));
                    assert(i == n - 1);
                    return Some(params);
                },
                Segment::Literal(bytes) => {
                    if i >= parts.len() || !same_bytes(bytes.as_slice(), parts[i].as_slice()) {
                        assert(!accepts(self@[i as int], given[i as int]) || i >= given.len());
                        return None;
                    }
                },
                Segment::Param(name) => {
                    if i >= parts.len() || parts[i].len() == 0 {
                        assert(!accepts(self@[i as int], given[i as int]) || i >= given.len());
                        return None;
                    }
                    params.bind(owned_bytes(name.as_slice()), owned_bytes(parts[i].as_slice()));
                },
            }
            i += 1;
        }
        if parts.len() == n {
            Some(params)
        } else {
            None
        }
    }
}

} // verus!
