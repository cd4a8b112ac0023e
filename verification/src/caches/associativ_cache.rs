//! A set-associative cache: `rows` sets of `ways` slots each, every slot
//! holding a value and the address it was stored for.
use vstd::prelude::*;

verus! {

/// Model of an `AssoCache`.
pub struct AssoCacheView<T> {
    /// Number of ways.
    pub ways: nat,
    /// Number of rows.
    pub rows: nat,
    /// Stored values, row after row.
    pub content: Seq<T>,
    /// Address of each stored value.
    pub addr: Seq<usize>,
    /// Row to override next in round robin.
    pub next: nat,
    /// Number of misses.
    pub miss: nat,
    /// Number of hits.
    pub hits: nat,
    /// Number of flushes.
    pub flush_count: nat,
    /// Has been flushed recently, not to do again.
    pub dirty: bool,
}

/// A set-associative cache of values of type `T`.
pub struct AssoCache<T> {
    /// Number of ways.
    ways: u64,
    /// Number of rows.
    rows: u64,
    /// Store content.
    content: Vec<T>,
    /// Store addresses identifying content to match requests.
    addr: Vec<usize>,
    /// Used to round robin on rows to override.
    next: u8,
    /// Count miss.
    miss: u64,
    /// Counter hits.
    hits: u64,
    /// Counter flush.
    flush_count: u64,
    /// Has been flushed recently, not to do again.
    dirty: bool,
}

impl<T> View for AssoCache<T> {
    type V = AssoCacheView<T>;

    closed spec fn view(&self) -> AssoCacheView<T> {
        AssoCacheView {
            ways: self.ways as nat,
            rows: self.rows as nat,
            content: self.content@,
            addr: self.addr@,
            next: self.next as nat,
            miss: self.miss as nat,
            hits: self.hits as nat,
            flush_count: self.flush_count as nat,
            dirty: self.dirty,
        }
    }
}

impl<T: Default> AssoCache<T> {
    /// Build a cache of `ways` ways and `rows` rows, every slot holding
    /// `T`'s default value.
    pub fn new(ways: u64, rows: u64) -> (cache: AssoCache<T>)
        requires
            ways * rows <= usize::MAX,
        ensures
            cache@.ways == ways,
            cache@.rows == rows,
            cache@.content.len() == ways * rows,
            forall|i: int|
                0 <= i < ways * rows ==> call_ensures(T::default, (), #[trigger] cache@.content[i]),
            cache@.addr =~= Seq::new((ways * rows) as nat, |i: int| 0usize),
            cache@.next == 0,
            cache@.miss == 0,
            cache@.hits == 0,
            cache@.flush_count == 0,
            cache@.dirty,
    {
        let n: usize = (ways * rows) as usize;
        let mut content: Vec<T> = Vec::new();
        let mut addr: Vec<usize> = Vec::new();
        let mut i: usize = 0;
        while i < n
            invariant
                0 <= i <= n,
                content@.len() == i,
                addr@.len() == i,
                forall|j: int| 0 <= j < i ==> call_ensures(T::default, (), #[trigger] content@[j]),
                forall|j: int| 0 <= j < i ==> #[trigger] addr@[j] == 0usize,
            decreases n - i,
        {
            content.push(T::default());
            addr.push(0);
            i = i + 1;
        }
        AssoCache {
            ways,
            rows,
            content,
            addr,
            next: 0,
            miss: 0,
            hits: 0,
            flush_count: 0,
            dirty: true,
        }
    }
}

} // verus!
