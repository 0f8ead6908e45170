use vstd::prelude::*;

verus! {

/// A dynamically-typed value, as carried in every payload that crosses the
/// channel. Floating-point numbers are held as their IEEE 754 bit pattern.
#[derive(Debug)]
pub enum Value {
    Null,
    Bool(bool),
    I64(i64),
    F64Bits(u64),
    Buf(Vec<u8>),
    List(Vec<Value>),
    KvMap(Vec<Kv>),
}

/// One entry of a map: a UTF-8 key and its value. Entries keep their order.
#[derive(Debug)]
pub struct Kv {
    pub key: String,
    pub val: Value,
}

/// The mathematical model of a [`Value`]: the same tree, with sequences in
/// place of vectors and each map entry as its key's characters and value.
pub enum ValueView {
    Null,
    Bool(bool),
    I64(i64),
    F64Bits(u64),
    Buf(Seq<u8>),
    List(Seq<ValueView>),
    KvMap(Seq<(Seq<char>, ValueView)>),
}

/// The model of a value.
pub open spec fn value_view(v: Value) -> ValueView
    decreases v,
{
    match v {
        Value::Null => ValueView::Null,
        Value::Bool(b) => ValueView::Bool(b),
        Value::I64(n) => ValueView::I64(n),
        Value::F64Bits(bits) => ValueView::F64Bits(bits),
        Value::Buf(b) => ValueView::Buf(b@),
        Value::List(items) => ValueView::List(items_view(items@)),
        Value::KvMap(pairs) => ValueView::KvMap(pairs_view(pairs@)),
    }
}

/// The models of a sequence of values, in order.
pub open spec fn items_view(s: Seq<Value>) -> Seq<ValueView>
    decreases s,
{
    if s.len() == 0 {
        Seq::empty()
    } else {
        items_view(s.drop_last()).push(value_view(s[s.len() - 1]))
    }
}

/// The models of a sequence of map entries, in order.
pub open spec fn pairs_view(s: Seq<Kv>) -> Seq<(Seq<char>, ValueView)>
    decreases s,
{
    if s.len() == 0 {
        Seq::empty()
    } else {
        pairs_view(s.drop_last()).push((s[s.len() - 1].key@, value_view(s[s.len() - 1].val)))
    }
}

/// The models of a sequence of values line up with the values, one for one.
pub proof fn lemma_items_view(s: Seq<Value>)
    ensures
        items_view(s).len() == s.len(),
        forall|i: int| 0 <= i < s.len() ==> #[trigger] items_view(s)[i] == value_view(s[i]),
    decreases s.len(),
{
    if s.len() != 0 {
        lemma_items_view(s.drop_last());
    }
}

/// The models of a sequence of map entries line up with the entries, one for
/// one.
pub proof fn lemma_pairs_view(s: Seq<Kv>)
    ensures
        pairs_view(s).len() == s.len(),
        forall|i: int|
            0 <= i < s.len() ==> #[trigger] pairs_view(s)[i] == (s[i].key@, value_view(s[i].val)),
    decreases s.len(),
{
    if s.len() != 0 {
        lemma_pairs_view(s.drop_last());
    }
}

impl View for Value {
    type V = ValueView;

    open spec fn view(&self) -> ValueView {
        value_view(*self)
    }
}

impl Kv {
    /// Builds an entry.
    pub fn new(key: String, val: Value) -> (r: Kv)
        ensures
            r.key@ == key@,
            r.val@ == val@,
    {
        Kv { key, val }
    }
}

/// `i` is the first entry whose key is `key`: lookups take the first match.
pub open spec fn is_first_key(pairs: Seq<Kv>, key: Seq<char>, i: int) -> bool {
    &&& 0 <= i < pairs.len()
    &&& pairs[i].key@ == key
    &&& forall|j: int| 0 <= j < i ==> (#[trigger] pairs[j]).key@ != key
}

/// Some entry has the key `key`.
pub open spec fn has_key(pairs: Seq<Kv>, key: Seq<char>) -> bool {
    exists|i: int| 0 <= i < pairs.len() && (#[trigger] pairs[i]).key@ == key
}

/// Finds the position of the first entry whose key is `key`.
pub fn map_find(pairs: &[Kv], key: &str) -> (r: Option<usize>)
    ensures
        r matches Some(i) ==> is_first_key(pairs@, key@, i as int),
        r is None <==> !has_key(pairs@, key@),
{
    let wanted = key.to_owned();
    let mut i: usize = 0;
    while i < pairs.len()
        invariant
            i <= pairs@.len(),
            wanted@ == key@,
            forall|j: int| 0 <= j < i ==> (#[trigger] pairs@[j]).key@ != key@,
        decreases pairs@.len() - i,
    {
        if pairs[i].key == wanted {
            return Some(i);
        }
        i = i + 1;
    }
    None
}

/// Looks a key up in a map, the first matching entry winning.
pub fn map_get<'a>(pairs: &'a [Kv], key: &str) -> (r: Option<&'a Value>)
    ensures
        r matches Some(v) ==> exists|i: int| is_first_key(pairs@, key@, i) && pairs@[i].val@ == v@,
        r is None <==> !has_key(pairs@, key@),
{
    match map_find(pairs, key) {
        Some(i) => Some(&pairs[i].val),
        None => None,
    }
}

/// Copies a byte buffer.
pub fn copy_bytes(b: &[u8]) -> (r: Vec<u8>)
    ensures
        r@ == b@,
{
    let mut out: Vec<u8> = Vec::with_capacity(b.len());
    let mut i: usize = 0;
    while i < b.len()
        invariant
            i <= b@.len(),
            out@ == b@.subrange(0, i as int),
        decreases b@.len() - i,
    {
        out.push(b[i]);
        i = i + 1;
        proof {
            assert(out@ =~= b@.subrange(0, i as int));
        }
    }
    proof {
        assert(out@ =~= b@);
    }
    out
}

impl Value {
    /// Makes an owned copy of a value, for instance of one that a callback
    /// only borrows.
    pub fn deep_copy(&self) -> (r: Value)
        ensures
            r@ == self@,
        decreases self,
    {
        match self {
            Value::Null => Value::Null,
            Value::Bool(b) => Value::Bool(*b),
            Value::I64(n) => Value::I64(*n),
            Value::F64Bits(bits) => Value::F64Bits(*bits),
            Value::Buf(b) => Value::Buf(copy_bytes(b.as_slice())),
            Value::List(items) => {
                proof {
                    assert(decreases_to!(*self => (*self)->List_0));
                    assert(decreases_to!(*items => items@));
                }
                let mut out: Vec<Value> = Vec::with_capacity(items.len());
                let mut i: usize = 0;
                while i < items.len()
                    invariant
                        i <= items@.len(),
                        decreases_to!(*self => items@),
                        items_view(out@) == items_view(items@.subrange(0, i as int)),
                    decreases items@.len() - i,
                {
                    proof {
                        assert(decreases_to!(items@ => items@[i as int]));
                    }
                    let c = items[i].deep_copy();
                    proof {
                        let done = items@.subrange(0, i as int + 1);
                        assert(done.drop_last() =~= items@.subrange(0, i as int));
                        assert(out@.push(c).drop_last() =~= out@);
                    }
                    out.push(c);
                    i = i + 1;
                }
                proof {
                    assert(items@.subrange(0, items@.len() as int) =~= items@);
                }
                Value::List(out)
            },
            Value::KvMap(pairs) => {
                proof {
                    assert(decreases_to!(*self => (*self)->KvMap_0));
                    assert(decreases_to!(*pairs => pairs@));
                }
                let mut out: Vec<Kv> = Vec::with_capacity(pairs.len());
                let mut i: usize = 0;
                while i < pairs.len()
                    invariant
                        i <= pairs@.len(),
                        decreases_to!(*self => pairs@),
                        pairs_view(out@) == pairs_view(pairs@.subrange(0, i as int)),
                    decreases pairs@.len() - i,
                {
                    proof {
                        assert(decreases_to!(pairs@ => pairs@[i as int]));
                        assert(decreases_to!(pairs@[i as int] => pairs@[i as int].val));
                    }
                    let c = pairs[i].val.deep_copy();
                    let k = pairs[i].key.clone();
                    let kv = Kv { key: k, val: c };
                    proof {
                        let done = pairs@.subrange(0, i as int + 1);
                        assert(done.drop_last() =~= pairs@.subrange(0, i as int));
                        assert(out@.push(kv).drop_last() =~= out@);
                    }
                    out.push(kv);
                    i = i + 1;
                }
                proof {
                    assert(pairs@.subrange(0, pairs@.len() as int) =~= pairs@);
                }
                Value::KvMap(out)
            },
        }
    }
}

/// Copies the entries of a map, keys and values alike.
pub fn copy_pairs(pairs: &[Kv]) -> (r: Vec<Kv>)
    ensures
        pairs_view(r@) == pairs_view(pairs@),
{
    let mut out: Vec<Kv> = Vec::with_capacity(pairs.len());
    let mut i: usize = 0;
    while i < pairs.len()
        invariant
            i <= pairs@.len(),
            pairs_view(out@) == pairs_view(pairs@.subrange(0, i as int)),
        decreases pairs@.len() - i,
    {
        let kv = Kv { key: pairs[i].key.clone(), val: pairs[i].val.deep_copy() };
        proof {
            let done = pairs@.subrange(0, i as int + 1);
            assert(done.drop_last() =~= pairs@.subrange(0, i as int));
            assert(out@.push(kv).drop_last() =~= out@);
        }
        out.push(kv);
        i = i + 1;
    }
    proof {
        assert(pairs@.subrange(0, pairs@.len() as int) =~= pairs@);
    }
    out
}

/// Copies a list of texts.
pub fn copy_texts(texts: &[&str]) -> (r: Vec<String>)
    ensures
        r@.len() == texts@.len(),
        forall|i: int| 0 <= i < texts@.len() ==> (#[trigger] r@[i])@ == texts@[i]@,
{
    let mut out: Vec<String> = Vec::with_capacity(texts.len());
    let mut i: usize = 0;
    while i < texts.len()
        invariant
            i <= texts@.len(),
            out@.len() == i,
            forall|j: int| 0 <= j < i ==> (#[trigger] out@[j])@ == texts@[j]@,
        decreases texts@.len() - i,
    {
        out.push(texts[i].to_owned());
        i = i + 1;
    }
    out
}

/// Copies an optional text.
pub fn copy_opt_text(t: Option<&str>) -> (r: Option<String>)
    ensures
        r is Some <==> t is Some,
        r matches Some(s) ==> s@ == t->0@,
{
    match t {
        Some(s) => Some(s.to_owned()),
        None => None,
    }
}

} // verus!
