//! Texture file ids of an M2 model file.
use vstd::prelude::*;

verus! {

/// The unsigned value of four bytes in little-endian order.
#[verifier::opaque]
pub open spec fn le_u32(b0: u8, b1: u8, b2: u8, b3: u8) -> u32 {
    (b0 as int + 256 * (b1 as int) + 65536 * (b2 as int) + 16777216 * (b3 as int)) as u32
}

/// The signed value of the four bytes of `d` from `i` in little-endian order.
pub open spec fn le_i32_at(d: Seq<u8>, i: int) -> i32 {
    le_u32(d[i], d[i + 1], d[i + 2], d[i + 3]) as i32
}

/// `LittleEndian::read_i32` of the byteorder crate on four bytes: their
/// little-endian value as an `i32`.
#[verifier::external_body]
fn read_i32_le(buf: &[u8]) -> (res: i32)
    requires
        buf@.len() == 4,
    ensures
        res == le_i32_at(buf@, 0),
{
    <byteorder::LittleEndian as byteorder::ByteOrder>::read_i32(buf)
}

/// The four bytes of the chunk name `TXID`.
pub open spec fn is_txid_at(d: Seq<u8>, i: int) -> bool {
    0 <= i && i + 4 <= d.len() && d[i] == 0x54 && d[i + 1] == 0x58 && d[i + 2] == 0x49 && d[i + 3] == 0x44
}

/// The first position of `TXID` in the data.
#[verifier::opaque]
pub open spec fn txid_position(d: Seq<u8>) -> Option<int> {
    if exists|i: int| #[trigger] is_txid_at(d, i) {
        Some(choose|i: int| is_txid_at(d, i) && forall|j: int| 0 <= j < i ==> !#[trigger] is_txid_at(d, j))
    } else {
        None
    }
}

/// The number of ids a chunk of `len` bytes holds: one per started four bytes.
pub open spec fn id_count(len: i32) -> int {
    if len > 0 {
        (len + 3) / 4
    } else {
        0
    }
}

/// The texture ids: after `TXID`, a byte length and then the ids, each as a
/// little-endian `i32`.
pub open spec fn texture_ids(d: Seq<u8>) -> Seq<i32> {
    match txid_position(d) {
        None => Seq::empty(),
        Some(p) => Seq::new(id_count(le_i32_at(d, p + 4)) as nat, |k: int| le_i32_at(d, p + 8 + 4 * k)),
    }
}

/// The data holds every id that its texture chunk announces.
pub open spec fn texture_chunk_complete(d: Seq<u8>) -> bool {
    match txid_position(d) {
        None => true,
        Some(p) => p + 8 <= d.len() && p + 8 + 4 * id_count(le_i32_at(d, p + 4)) <= d.len(),
    }
}

/// An M2 model file.
pub struct M2Reader {
    pub data: Vec<u8>,
}

impl M2Reader {
    pub fn new(data: Vec<u8>) -> (res: Self)
        ensures
            res.data@ == data@,
    {
        Self { data }
    }

    fn find_txid(&self) -> (res: Option<usize>)
        ensures
            match res {
                Some(p) => txid_position(self.data@) == Some(p as int) && p + 4 <= self.data@.len(),
                None => txid_position(self.data@) is None,
            },
    {
        let n = self.data.len();
        let mut i: usize = 0;
        while i < n && n - i >= 4
            invariant
                n == self.data@.len(),
                i <= n,
                forall|j: int| 0 <= j < i ==> !#[trigger] is_txid_at(self.data@, j),
            decreases self.data@.len() - i,
        {
            if self.data[i] == 0x54 && self.data[i + 1] == 0x58 && self.data[i + 2] == 0x49 && self.data[i + 3] == 0x44 {
                assert(is_txid_at(self.data@, i as int));
                proof {
                    lemma_txid_found(self.data@, i as int);
                }
                assert(txid_position(self.data@) == Some(i as int));
                return Some(i);
            }
            i = i + 1;
        }
        proof {
            lemma_txid_absent(self.data@, i as int);
        }
        None
    }

    fn read_at(&self, pos: usize) -> (res: i32)
        requires
            pos + 4 <= self.data@.len(),
        ensures
            res == le_i32_at(self.data@, pos as int),
    {
        let n = self.data.len();
        assert(pos + 4 <= n);
        let slice = vstd::slice::slice_subrange(self.data.as_slice(), pos, pos + 4);
        assert(slice@ =~= self.data@.subrange(pos as int, pos + 4));
        read_i32_le(slice)
    }

    /// Whether the data holds every id that its texture chunk announces.
    pub fn texture_chunk_is_complete(&self) -> (res: bool)
        ensures
            res == texture_chunk_complete(self.data@),
    {
        match self.find_txid() {
            None => true,
            Some(position) => {
                let total = self.data.len();
                if total - position < 8 {
                    return false;
                }
                let first = self.read_at(position + 4);
                let count: usize = if first > 0 {
                    ((first as u64 + 3) / 4) as usize
                } else {
                    0
                };
                assert(count == id_count(first));
                count <= (total - position - 8) / 4
            },
        }
    }

    /// The texture file ids that the model names.
    pub fn read_texture_ids(&self) -> (res: Vec<i32>)
        requires
            texture_chunk_complete(self.data@),
        ensures
            res@ == texture_ids(self.data@),
    {
        let mut result: Vec<i32> = Vec::new();
        match self.find_txid() {
            None => {},
            Some(position) => {
                let total = self.data.len();
                assert(position + 8 <= total);
                let first = self.read_at(position + 4);
                let mut pos = position + 8;
                let mut len = first;
                let ghost n = id_count(first);
                while len > 0
                    invariant
                        total == self.data@.len(),
                        self.data@.len() >= position + 8 + 4 * n,
                        n == id_count(first),
                        len == first - 4 * result@.len(),
                        result@.len() <= n,
                        pos == position + 8 + 4 * result@.len(),
                        forall|k: int| 0 <= k < result@.len() ==> result@[k] == le_i32_at(self.data@, position + 8 + 4 * k),
                    decreases n - result@.len(),
                {
                    proof {
                        lemma_id_count(first, result@.len() as int);
                    }
                    let id = self.read_at(pos);
                    result.push(id);
                    pos = pos + 4;
                    len = len - 4;
                }
                proof {
                    lemma_id_count(first, result@.len() as int);
                }
                assert(result@ =~= texture_ids(self.data@));
            },
        }
        result
    }
}

proof fn lemma_id_count(first: i32, k: int)
    requires
        0 <= k,
        k <= id_count(first),
    ensures
        first - 4 * k > 0 <==> k < id_count(first),
{
}

proof fn lemma_txid_found(d: Seq<u8>, i: int)
    requires
        is_txid_at(d, i),
        forall|j: int| 0 <= j < i ==> !#[trigger] is_txid_at(d, j),
    ensures
        txid_position(d) == Some(i),
{
    reveal(txid_position);
    let p = choose|p: int| is_txid_at(d, p) && forall|j: int| 0 <= j < p ==> !#[trigger] is_txid_at(d, j);
    if p < i {
        assert(!is_txid_at(d, p));
    } else if p > i {
        assert(!is_txid_at(d, i));
    }
}

proof fn lemma_txid_absent(d: Seq<u8>, i: int)
    requires
        0 <= i <= d.len(),
        i + 4 > d.len(),
        forall|j: int| 0 <= j < i ==> !#[trigger] is_txid_at(d, j),
    ensures
        txid_position(d) is None,
{
    reveal(txid_position);
    assert forall|j: int| !#[trigger] is_txid_at(d, j) by {
        if 0 <= j < i {
        }
    }
}

} // verus!
