use vstd::prelude::*;
use vstd::utf8::encode_utf8;

use crate::error::Error;
use crate::object::{
    items_view, lemma_items_view, lemma_pairs_view, pairs_view, value_view, Value, ValueView,
};

verus! {

/// Bytes taken by one value cell of a list.
pub const CELL_SIZE: usize = 16;

/// Bytes taken by one entry cell of a map.
pub const KV_CELL_SIZE: usize = 32;

/// Alignment of list and map cells.
pub const CELL_ALIGN: usize = 8;

/// A range `[start, end)` of an arena's buffer.
#[derive(Debug, Clone, Copy, PartialEq, Eq, Structural)]
pub struct Span {
    pub start: usize,
    pub end: usize,
}

/// A bump allocator over a buffer that the caller hands in. Allocations are
/// never freed one by one: the whole buffer is given back with
/// [`Arena::into_buffer`].
pub struct Arena {
    mem: Vec<u8>,
    used: usize,
}

/// The first offset at or after `at` that is a multiple of `align`.
pub open spec fn align_up(at: int, align: int) -> int {
    if at % align == 0 {
        at
    } else {
        at + (align - at % align)
    }
}

/// Where a request for `size` bytes aligned to `align` lands when `used`
/// bytes of a buffer of `cap` bytes are taken: its range, or `None` when it
/// does not fit.
pub open spec fn alloc_range(used: int, cap: int, size: int, align: int) -> Option<(int, int)> {
    let start = align_up(used, align);
    if start + size <= cap {
        Some((start, start + size))
    } else {
        None
    }
}

/// The offset reached after laying out a value from offset `at`, in decode
/// order: a byte buffer takes its bytes, a list a cell for each item and then
/// its items, a map a cell for each entry and then, for each entry, the key's
/// bytes and the value. Scalars live in their parent's cell.
pub open spec fn layout_end(v: ValueView, at: int) -> int
    decreases v,
{
    match v {
        ValueView::Buf(b) => at + b.len(),
        ValueView::List(items) => items_end(
            items,
            align_up(at, CELL_ALIGN as int) + CELL_SIZE * items.len(),
        ),
        ValueView::KvMap(pairs) => entries_end(
            pairs,
            align_up(at, CELL_ALIGN as int) + KV_CELL_SIZE * pairs.len(),
        ),
        _ => at,
    }
}

/// The offset reached after laying out a sequence of values from `at`.
pub open spec fn items_end(s: Seq<ValueView>, at: int) -> int
    decreases s,
{
    if s.len() == 0 {
        at
    } else {
        items_end(s.drop_first(), layout_end(s[0], at))
    }
}

/// The offset reached after laying out the keys and values of map entries
/// from `at`.
pub open spec fn entries_end(s: Seq<(Seq<char>, ValueView)>, at: int) -> int
    decreases s,
{
    if s.len() == 0 {
        at
    } else {
        entries_end(s.drop_first(), layout_end(s[0].1, at + encode_utf8(s[0].0).len()))
    }
}

/// Laying out never moves backwards.
pub proof fn lemma_layout_grows(v: ValueView, at: int)
    ensures
        layout_end(v, at) >= at,
    decreases v,
{
    match v {
        ValueView::List(items) => {
            lemma_items_grow(items, align_up(at, CELL_ALIGN as int) + CELL_SIZE * items.len());
        },
        ValueView::KvMap(pairs) => {
            lemma_entries_grow(pairs, align_up(at, CELL_ALIGN as int) + KV_CELL_SIZE * pairs.len());
        },
        _ => {},
    }
}

/// Laying out a sequence of values never moves backwards.
pub proof fn lemma_items_grow(s: Seq<ValueView>, at: int)
    ensures
        items_end(s, at) >= at,
    decreases s,
{
    if s.len() != 0 {
        lemma_layout_grows(s[0], at);
        lemma_items_grow(s.drop_first(), layout_end(s[0], at));
    }
}

/// Laying out map entries never moves backwards.
pub proof fn lemma_entries_grow(s: Seq<(Seq<char>, ValueView)>, at: int)
    ensures
        entries_end(s, at) >= at,
    decreases s,
{
    if s.len() != 0 {
        let k = at + encode_utf8(s[0].0).len();
        lemma_layout_grows(s[0].1, k);
        lemma_entries_grow(s.drop_first(), layout_end(s[0].1, k));
    }
}

/// Laying out is deterministic: the same value, from the same mark, in
/// buffers of the same size, fits in both or in neither, and ends at the same
/// offset, so every cell lands at the same offset in both.
pub proof fn lemma_layout_deterministic(v1: ValueView, v2: ValueView, at: int, cap1: int, cap2: int)
    requires
        v1 == v2,
        cap1 == cap2,
    ensures
        (layout_end(v1, at) <= cap1) == (layout_end(v2, at) <= cap2),
        layout_end(v1, at) == layout_end(v2, at),
{
}

/// Allocation never hands out bytes past the buffer's end, nor bytes that an
/// earlier allocation holds (those all lie below `used`); and a request larger
/// than what is left fails.
pub proof fn lemma_alloc_in_bounds(used: int, cap: int, size: int, align: int)
    requires
        0 <= used <= cap,
        size >= 0,
        align > 0,
    ensures
        alloc_range(used, cap, size, align) matches Some((s, e)) ==> used <= s <= e <= cap && e
            - s == size,
        size > cap - used ==> alloc_range(used, cap, size, align) is None,
{
}

/// Two allocations in a row take disjoint ranges, the second after the
/// first, both inside the buffer.
pub proof fn lemma_allocs_disjoint(
    used: int,
    cap: int,
    size1: int,
    align1: int,
    size2: int,
    align2: int,
)
    requires
        0 <= used <= cap,
        size1 >= 0,
        size2 >= 0,
        align1 > 0,
        align2 > 0,
        alloc_range(used, cap, size1, align1) is Some,
    ensures
        ({
            let (s1, e1) = alloc_range(used, cap, size1, align1)->0;
            alloc_range(e1, cap, size2, align2) matches Some((s2, e2)) ==> used <= s1 <= e1 <= s2
                <= e2 <= cap
        }),
{
}

/// `after` has the length of `before` and the same bytes below offset `n`:
/// what was handed out below `n` is untouched.
pub open spec fn kept_below(before: Seq<u8>, after: Seq<u8>, n: int) -> bool {
    &&& after.len() == before.len()
    &&& forall|j: int| 0 <= j < n ==> #[trigger] after[j] == before[j]
}

impl Arena {
    /// The arena is consistent: what it has handed out lies in its buffer.
    pub closed spec fn wf(&self) -> bool {
        self.used <= self.mem@.len()
    }

    /// Size of the buffer in bytes.
    pub open spec fn cap(&self) -> int {
        self.contents().len() as int
    }

    /// Bytes handed out so far, alignment padding included.
    pub closed spec fn taken(&self) -> int {
        self.used as int
    }

    /// The buffer's contents.
    pub closed spec fn contents(&self) -> Seq<u8> {
        self.mem@
    }

    /// An arena over `buffer`, with nothing handed out.
    pub fn init(buffer: Vec<u8>) -> (r: Arena)
        ensures
            r.wf(),
            r.taken() == 0,
            r.contents() == buffer@,
    {
        Arena { mem: buffer, used: 0 }
    }

    /// Size of the buffer in bytes.
    pub fn capacity(&self) -> (r: usize)
        ensures
            r == self.cap(),
    {
        self.mem.len()
    }

    /// Bytes handed out so far.
    pub fn used(&self) -> (r: usize)
        ensures
            r == self.taken(),
    {
        self.used
    }

    /// Gives the buffer back.
    pub fn into_buffer(self) -> (r: Vec<u8>)
        ensures
            r@ == self.contents(),
    {
        self.mem
    }

    /// Hands out `size` bytes aligned to `align`, or fails with
    /// `OutOfMemory` and leaves the arena as it was.
    pub fn allocate(&mut self, size: usize, align: usize) -> (r: Result<Span, Error>)
        requires
            old(self).wf(),
            align > 0,
        ensures
            final(self).wf(),
            final(self).contents() == old(self).contents(),
            match alloc_range(old(self).taken(), old(self).cap(), size as int, align as int) {
                Some((s, e)) => r == Ok::<Span, Error>(Span { start: s as usize, end: e as usize })
                    && final(self).taken() == e,
                None => r == Err::<Span, Error>(Error::OutOfMemory) && final(self).taken()
                    == old(self).taken(),
            },
    {
        let cap = self.mem.len();
        let rem = self.used % align;
        let pad: usize = if rem == 0 {
            0
        } else {
            align - rem
        };
        if pad > cap - self.used {
            return Err(Error::OutOfMemory);
        }
        let start = self.used + pad;
        if size > cap - start {
            return Err(Error::OutOfMemory);
        }
        let end = start + size;
        self.used = end;
        Ok(Span { start, end })
    }

    /// Hands out room for `b` and copies it there. Bytes outside the new
    /// range keep their contents.
    pub fn put_bytes(&mut self, b: &[u8]) -> (r: Result<Span, Error>)
        requires
            old(self).wf(),
        ensures
            final(self).wf(),
            match alloc_range(old(self).taken(), old(self).cap(), b@.len() as int, 1) {
                Some((s, e)) => {
                    &&& r == Ok::<Span, Error>(Span { start: s as usize, end: e as usize })
                    &&& final(self).taken() == e
                    &&& final(self).cap() == old(self).cap()
                    &&& final(self).contents().subrange(s, e) == b@
                    &&& forall|j: int|
                        0 <= j < final(self).cap() && !(s <= j < e)
                            ==> #[trigger] final(self).contents()[j] == old(self).contents()[j]
                },
                None => {
                    &&& r == Err::<Span, Error>(Error::OutOfMemory)
                    &&& final(self).taken() == old(self).taken()
                    &&& final(self).contents() == old(self).contents()
                },
            },
    {
        let span = match self.allocate(b.len(), 1) {
            Ok(span) => span,
            Err(e) => return Err(e),
        };
        let ghost before = self.mem@;
        let mut i: usize = 0;
        while i < b.len()
            invariant
                span.end - span.start == b@.len(),
                span.end <= self.mem@.len(),
                self.used == span.end,
                self.mem@.len() == before.len(),
                i <= b@.len(),
                forall|j: int| 0 <= j < i ==> #[trigger] self.mem@[span.start + j] == b@[j],
                forall|j: int|
                    0 <= j < self.mem@.len() && !(span.start <= j < span.start + i)
                        ==> #[trigger] self.mem@[j] == before[j],
            decreases b@.len() - i,
        {
            self.mem.set(span.start + i, b[i]);
            i = i + 1;
        }
        proof {
            assert forall|k: int| 0 <= k < b@.len() implies self.mem@.subrange(
                span.start as int,
                span.end as int,
            )[k] == b@[k] by {
                assert(self.mem@[span.start + k] == b@[k]);
            }
            assert(self.mem@.subrange(span.start as int, span.end as int) =~= b@);
        }
        Ok(span)
    }

    /// Lays `v` out in the arena in decode order: it succeeds exactly when the
    /// whole layout fits in what is left, and then returns an owned copy of
    /// `v` and has taken exactly the layout's bytes. Either way the bytes
    /// handed out before the call keep their contents. A byte buffer's bytes
    /// land right at the old mark.
    pub fn materialize(&mut self, v: &Value) -> (r: Result<Value, Error>)
        requires
            old(self).wf(),
        ensures
            final(self).wf(),
            final(self).cap() == old(self).cap(),
            old(self).taken() <= final(self).taken(),
            r is Ok <==> layout_end(v@, old(self).taken()) <= old(self).cap(),
            r matches Ok(c) ==> c@ == v@,
            r is Ok ==> final(self).taken() == layout_end(v@, old(self).taken()),
            r is Err ==> r == Err::<Value, Error>(Error::OutOfMemory),
            kept_below(old(self).contents(), final(self).contents(), old(self).taken()),
            r is Ok && v is Buf ==> final(self).contents().subrange(
                old(self).taken(),
                old(self).taken() + v->Buf_0@.len(),
            ) == v->Buf_0@,
    {
        match self.lay_out(v) {
            Ok(()) => Ok(v.deep_copy()),
            Err(e) => Err(e),
        }
    }

    /// Takes room for the layout of `v`, as `layout_end` describes it.
    fn lay_out(&mut self, v: &Value) -> (r: Result<(), Error>)
        requires
            old(self).wf(),
        ensures
            final(self).wf(),
            final(self).cap() == old(self).cap(),
            old(self).taken() <= final(self).taken() <= final(self).cap(),
            r is Ok <==> layout_end(v@, old(self).taken()) <= old(self).cap(),
            r is Ok ==> final(self).taken() == layout_end(v@, old(self).taken()),
            r is Err ==> r == Err::<(), Error>(Error::OutOfMemory),
            kept_below(old(self).contents(), final(self).contents(), old(self).taken()),
            r is Ok && v is Buf ==> final(self).contents().subrange(
                old(self).taken(),
                old(self).taken() + v->Buf_0@.len(),
            ) == v->Buf_0@,
        decreases v,
    {
        let ghost at = self.used as int;
        match v {
            Value::Buf(b) => match self.put_bytes(b.as_slice()) {
                Ok(_) => Ok(()),
                Err(e) => Err(e),
            },
            Value::List(items) => {
                let ghost m = items_view(items@);
                proof {
                    lemma_items_view(items@);
                    assert(decreases_to!(*v => (*v)->List_0));
                    assert(decreases_to!(*items => items@));
                }
                let n = items.len();
                let cap = self.capacity();
                let size = match n.checked_mul(CELL_SIZE) {
                    Some(size) => size,
                    None => {
                        proof {
                            assert(cap <= usize::MAX);
                            lemma_items_grow(m, align_up(at, CELL_ALIGN as int) + CELL_SIZE * m.len());
                        }
                        return Err(Error::OutOfMemory);
                    },
                };
                match self.allocate(size, CELL_ALIGN) {
                    Ok(_) => {},
                    Err(e) => {
                        proof {
                            lemma_items_grow(m, align_up(at, CELL_ALIGN as int) + CELL_SIZE * m.len());
                        }
                        return Err(e);
                    },
                }
                let ghost start = self.used as int;
                proof {
                    assert(m.subrange(0, n as int) =~= m);
                }
                let mut i: usize = 0;
                while i < n
                    invariant
                        self.wf(),
                        self.cap() == old(self).cap(),
                        at == old(self).taken(),
                        kept_below(old(self).contents(), self.contents(), at),
                        layout_end(v@, at) == items_end(m, start),
                        n == items@.len(),
                        m == items_view(items@),
                        m.len() == n,
                        forall|j: int| 0 <= j < n ==> #[trigger] m[j] == value_view(items@[j]),
                        i <= n,
                        at <= start <= self.used,
                        items_end(m, start) == items_end(m.subrange(i as int, n as int), self.used as int),
                        decreases_to!(*v => items@),
                    decreases n - i,
                {
                    proof {
                        assert(decreases_to!(items@ => items@[i as int]));
                        assert(m.subrange(i as int, n as int).drop_first() =~= m.subrange(i as int + 1, n as int));
                        assert(m.subrange(i as int, n as int)[0] == m[i as int]);
                    }
                    let ghost before = self.used as int;
                    match self.lay_out(&items[i]) {
                        Ok(()) => {},
                        Err(e) => {
                            proof {
                                lemma_items_grow(m.subrange(i as int + 1, n as int), layout_end(m[i as int], before));
                            }
                            return Err(e);
                        },
                    }
                    i = i + 1;
                }
                proof {
                    assert(m.subrange(n as int, n as int).len() == 0);
                }
                Ok(())
            },
            Value::KvMap(pairs) => {
                let ghost m = pairs_view(pairs@);
                proof {
                    lemma_pairs_view(pairs@);
                    assert(decreases_to!(*v => (*v)->KvMap_0));
                    assert(decreases_to!(*pairs => pairs@));
                }
                let n = pairs.len();
                let cap = self.capacity();
                let size = match n.checked_mul(KV_CELL_SIZE) {
                    Some(size) => size,
                    None => {
                        proof {
                            assert(cap <= usize::MAX);
                            lemma_entries_grow(m, align_up(at, CELL_ALIGN as int) + KV_CELL_SIZE * m.len());
                        }
                        return Err(Error::OutOfMemory);
                    },
                };
                match self.allocate(size, CELL_ALIGN) {
                    Ok(_) => {},
                    Err(e) => {
                        proof {
                            lemma_entries_grow(m, align_up(at, CELL_ALIGN as int) + KV_CELL_SIZE * m.len());
                        }
                        return Err(e);
                    },
                }
                let ghost start = self.used as int;
                proof {
                    assert(m.subrange(0, n as int) =~= m);
                }
                let mut i: usize = 0;
                while i < n
                    invariant
                        self.wf(),
                        self.cap() == old(self).cap(),
                        at == old(self).taken(),
                        kept_below(old(self).contents(), self.contents(), at),
                        layout_end(v@, at) == entries_end(m, start),
                        n == pairs@.len(),
                        m == pairs_view(pairs@),
                        m.len() == n,
                        forall|j: int|
                            0 <= j < n ==> #[trigger] m[j] == (pairs@[j].key@, value_view(pairs@[j].val)),
                        i <= n,
                        at <= start <= self.used,
                        entries_end(m, start) == entries_end(m.subrange(i as int, n as int), self.used as int),
                        decreases_to!(*v => pairs@),
                    decreases n - i,
                {
                    proof {
                        assert(decreases_to!(pairs@ => pairs@[i as int]));
                        assert(decreases_to!(pairs@[i as int] => pairs@[i as int].val));
                        assert(m.subrange(i as int, n as int).drop_first() =~= m.subrange(i as int + 1, n as int));
                        assert(m.subrange(i as int, n as int)[0] == m[i as int]);
                    }
                    let ghost before = self.used as int;
                    let key_bytes = pairs[i].key.as_str().as_bytes();
                    match self.put_bytes(key_bytes) {
                        Ok(_) => {},
                        Err(e) => {
                            proof {
                                let k = before + encode_utf8(m[i as int].0).len();
                                lemma_layout_grows(m[i as int].1, k);
                                lemma_entries_grow(m.subrange(i as int + 1, n as int), layout_end(m[i as int].1, k));
                            }
                            return Err(e);
                        },
                    }
                    let ghost mid = self.used as int;
                    match self.lay_out(&pairs[i].val) {
                        Ok(()) => {},
                        Err(e) => {
                            proof {
                                lemma_entries_grow(m.subrange(i as int + 1, n as int), layout_end(m[i as int].1, mid));
                            }
                            return Err(e);
                        },
                    }
                    i = i + 1;
                }
                proof {
                    assert(m.subrange(n as int, n as int).len() == 0);
                }
                Ok(())
            },
            _ => Ok(()),
        }
    }
}

} // verus!
