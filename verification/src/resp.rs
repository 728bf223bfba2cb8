//! RESP frame values and their mathematical model.

use vstd::prelude::*;

verus! {

/// A bulk string: a length-prefixed sequence of bytes.
#[derive(Debug)]
pub struct BulkString(pub Vec<u8>);

/// An array of frames.
#[derive(Debug)]
pub struct RespArray(pub Vec<RespFrame>);

/// One element of the protocol's value algebra.
///
/// A bulk string or an array may be absent (nil), which is distinct from
/// being present and empty.
#[derive(Debug)]
pub enum RespFrame {
    Null,
    Integer(i64),
    BulkString(Option<BulkString>),
    Array(Option<RespArray>),
}

/// The mathematical value of a frame.
pub enum FrameView {
    Null,
    Integer(i64),
    BulkString(Option<Seq<u8>>),
    Array(Option<Seq<FrameView>>),
}

/// The value of a frame, by structural recursion.
pub open spec fn frame_view(f: RespFrame) -> FrameView
    decreases f,
{
    match f {
        RespFrame::Null => FrameView::Null,
        RespFrame::Integer(n) => FrameView::Integer(n),
        RespFrame::BulkString(None) => FrameView::BulkString(None),
        RespFrame::BulkString(Some(b)) => FrameView::BulkString(Some(b.0@)),
        RespFrame::Array(None) => FrameView::Array(None),
        RespFrame::Array(Some(a)) => FrameView::Array(
            Some(
                Seq::new(
                    a.0.len() as nat,
                    |i: int|
                        if 0 <= i < a.0.len() {
                            frame_view(a.0[i])
                        } else {
                            FrameView::Null
                        },
                ),
            ),
        ),
    }
}

impl View for BulkString {
    type V = Seq<u8>;

    open spec fn view(&self) -> Seq<u8> {
        self.0@
    }
}

impl View for RespFrame {
    type V = FrameView;

    open spec fn view(&self) -> FrameView {
        frame_view(*self)
    }
}

impl View for RespArray {
    type V = Seq<FrameView>;

    open spec fn view(&self) -> Seq<FrameView> {
        Seq::new(self.0.len() as nat, |i: int| self.0[i]@)
    }
}

impl BulkString {
    /// The bulk string that holds the bytes of `s`.
    pub fn new(s: String) -> (b: BulkString)
        ensures
            b@ == vstd::utf8::encode_utf8(s@),
    {
        BulkString(s.as_str().as_bytes_vec())
    }
}

impl RespArray {
    /// The array of the given frames.
    pub fn new(frames: Vec<RespFrame>) -> (a: RespArray)
        ensures
            a == RespArray(frames),
    {
        RespArray(frames)
    }
}

/// The value of an array frame is the sequence of its elements' values.
pub proof fn lemma_array_view(a: RespArray)
    ensures
        RespFrame::Array(Some(a))@ == FrameView::Array(Some(a@)),
        a@.len() == a.0.len(),
        forall|i: int| 0 <= i < a.0.len() ==> a@[i] == #[trigger] a.0[i]@,
{
    let inner = RespFrame::Array(Some(a))@->Array_0->Some_0;
    assert(inner =~= a@);
}

/// Whether two byte strings hold the same bytes.
pub fn bytes_eq(a: &[u8], b: &[u8]) -> (r: bool)
    ensures
        r == (a@ == b@),
{
    if a.len() != b.len() {
        return false;
    }
    let mut i: usize = 0;
    while i < a.len()
        invariant
            i <= a.len(),
            a.len() == b.len(),
            a@.take(i as int) == b@.take(i as int),
        decreases a.len() - i,
    {
        if a[i] != b[i] {
            return false;
        }
        assert(a@.take(i + 1) == a@.take(i as int).push(a@[i as int]));
        assert(b@.take(i + 1) == b@.take(i as int).push(b@[i as int]));
        i += 1;
    }
    assert(a@ == a@.take(a.len() as int));
    assert(b@ == b@.take(b.len() as int));
    true
}

/// Whether two vectors of frames hold the same values in the same order.
pub fn frames_eq(a: &Vec<RespFrame>, b: &Vec<RespFrame>) -> (r: bool)
    ensures
        r == (RespArray(*a)@ == RespArray(*b)@),
    decreases a,
{
    if a.len() != b.len() {
        return false;
    }
    let mut i: usize = 0;
    while i < a.len()
        invariant
            i <= a.len(),
            a.len() == b.len(),
            forall|j: int| 0 <= j < i ==> a[j]@ == b[j]@,
        decreases a.len() - i,
    {
        proof {
            vstd::std_specs::vec::axiom_vec_index_decreases(*a, i as int);
        }
        if !a[i].same_as(&b[i]) {
            assert(RespArray(*a)@[i as int] != RespArray(*b)@[i as int]);
            return false;
        }
        i += 1;
    }
    assert(RespArray(*a)@ =~= RespArray(*b)@);
    true
}

impl RespFrame {
    /// Whether two frames have the same value.
    pub fn same_as(&self, other: &RespFrame) -> (r: bool)
        ensures
            r == (self@ == other@),
        decreases self,
    {
        match (self, other) {
            (RespFrame::Null, RespFrame::Null) => true,
            (RespFrame::Integer(x), RespFrame::Integer(y)) => *x == *y,
            (RespFrame::BulkString(None), RespFrame::BulkString(None)) => true,
            (RespFrame::BulkString(Some(x)), RespFrame::BulkString(Some(y))) => bytes_eq(x.0.as_slice(), y.0.as_slice()),
            (RespFrame::Array(None), RespFrame::Array(None)) => true,
            (RespFrame::Array(Some(x)), RespFrame::Array(Some(y))) => {
                proof {
                    lemma_array_view(*x);
                    lemma_array_view(*y);
                }
                frames_eq(&x.0, &y.0)
            },
            _ => false,
        }
    }
}

impl PartialEq for RespFrame {
    fn eq(&self, other: &RespFrame) -> (r: bool) {
        self.same_as(other)
    }
}

impl vstd::std_specs::cmp::PartialEqSpecImpl for RespFrame {
    open spec fn obeys_eq_spec() -> bool {
        true
    }

    open spec fn eq_spec(&self, other: &RespFrame) -> bool {
        self@ == other@
    }
}

impl From<i64> for RespFrame {
    fn from(n: i64) -> (r: RespFrame) {
        RespFrame::Integer(n)
    }
}

impl vstd::std_specs::convert::FromSpecImpl<i64> for RespFrame {
    open spec fn obeys_from_spec() -> bool {
        true
    }

    open spec fn from_spec(n: i64) -> RespFrame {
        RespFrame::Integer(n)
    }
}

impl From<Option<BulkString>> for RespFrame {
    fn from(b: Option<BulkString>) -> (r: RespFrame) {
        RespFrame::BulkString(b)
    }
}

impl vstd::std_specs::convert::FromSpecImpl<Option<BulkString>> for RespFrame {
    open spec fn obeys_from_spec() -> bool {
        true
    }

    open spec fn from_spec(b: Option<BulkString>) -> RespFrame {
        RespFrame::BulkString(b)
    }
}

impl From<Option<RespArray>> for RespFrame {
    fn from(a: Option<RespArray>) -> (r: RespFrame) {
        RespFrame::Array(a)
    }
}

impl vstd::std_specs::convert::FromSpecImpl<Option<RespArray>> for RespFrame {
    open spec fn obeys_from_spec() -> bool {
        true
    }

    open spec fn from_spec(a: Option<RespArray>) -> RespFrame {
        RespFrame::Array(a)
    }
}

} // verus!
