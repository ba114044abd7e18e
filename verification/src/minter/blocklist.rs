//! The addresses that no withdrawal may go to.
use crate::text::{trim, trimmed};
use vstd::prelude::*;
use vstd::string::*;
use vstd::utf8::*;

verus! {

/// Whether `a` comes before `b`, byte by byte.
pub open spec fn before(a: Seq<u8>, b: Seq<u8>) -> bool {
    exists|k: int| first_difference(a, b, k)
}

/// Whether `a` and `b` agree up to position `k` and `a` is the smaller one there:
/// it ends, or its byte is less.
pub open spec fn first_difference(a: Seq<u8>, b: Seq<u8>, k: int) -> bool {
    &&& 0 <= k <= a.len()
    &&& k < b.len()
    &&& forall|j: int| 0 <= j < k ==> a[j] == b[j]
    &&& k < a.len() ==> a[k] < b[k]
}

/// Whether the bytes of `a` come before those of `b`, or are the same.
pub open spec fn not_after(a: Seq<char>, b: Seq<char>) -> bool {
    a == b || before(encode_utf8(a), encode_utf8(b))
}

/// How one string stands to another.
enum Side {
    Before,
    Same,
    After,
}

proof fn lemma_before_transitive(a: Seq<u8>, b: Seq<u8>, c: Seq<u8>)
    requires
        before(a, b),
        before(b, c),
    ensures
        before(a, c),
{
    let k = choose|k: int| first_difference(a, b, k);
    let l = choose|l: int| first_difference(b, c, l);
    if k <= l {
        assert(first_difference(a, c, k));
    } else {
        assert(first_difference(a, c, l));
    }
}

proof fn lemma_before_irreflexive(a: Seq<u8>)
    ensures
        !before(a, a),
{
}

proof fn lemma_not_after_before(a: Seq<char>, b: Seq<char>, c: Seq<char>)
    requires
        not_after(a, b),
        before(encode_utf8(b), encode_utf8(c)),
    ensures
        before(encode_utf8(a), encode_utf8(c)),
{
    if a != b {
        lemma_before_transitive(encode_utf8(a), encode_utf8(b), encode_utf8(c));
    }
}

proof fn lemma_before_not_after(a: Seq<char>, b: Seq<char>, c: Seq<char>)
    requires
        before(encode_utf8(a), encode_utf8(b)),
        not_after(b, c),
    ensures
        before(encode_utf8(a), encode_utf8(c)),
{
    if b != c {
        lemma_before_transitive(encode_utf8(a), encode_utf8(b), encode_utf8(c));
    }
}

/// Compares two strings by their bytes.
fn side_of(a: &str, b: &str) -> (side: Side)
    ensures
        match side {
            Side::Before => before(encode_utf8(a@), encode_utf8(b@)),
            Side::Same => a@ == b@,
            Side::After => before(encode_utf8(b@), encode_utf8(a@)),
        },
{
    let x = a.as_bytes();
    let y = b.as_bytes();
    let mut k: usize = 0;
    while k < x.len() && k < y.len() && x[k] == y[k]
        invariant
            k <= x@.len(),
            k <= y@.len(),
            forall|j: int| 0 <= j < k ==> x@[j] == y@[j],
        decreases x@.len() - k,
    {
        k = k + 1;
    }
    if k < x.len() && k < y.len() {
        if x[k] < y[k] {
            assert(first_difference(x@, y@, k as int));
            Side::Before
        } else {
            assert(first_difference(y@, x@, k as int));
            Side::After
        }
    } else if k < y.len() {
        assert(first_difference(x@, y@, k as int));
        Side::Before
    } else if k < x.len() {
        assert(first_difference(y@, x@, k as int));
        Side::After
    } else {
        proof {
            assert(x@ =~= y@);
            encode_utf8_decode_utf8(a@);
            encode_utf8_decode_utf8(b@);
        }
        Side::Same
    }
}

/// A list of addresses in byte order.
pub struct Blocklist {
    addresses: Vec<String>,
}

impl View for Blocklist {
    type V = Seq<Seq<char>>;

    closed spec fn view(&self) -> Seq<Seq<char>> {
        self.addresses@.map_values(|a: String| a@)
    }
}

/// Whether `list` is in byte order.
pub open spec fn in_order(list: Seq<Seq<char>>) -> bool {
    forall|i: int, j: int|
        #![trigger list[i], list[j]]
        0 <= i < j < list.len() ==> not_after(list[i], list[j])
}

impl Blocklist {
    #[verifier::type_invariant]
    closed spec fn well_formed(self) -> bool {
        in_order(self@)
    }

    /// A blocklist of `addresses`, if they are in byte order.
    pub fn new(addresses: Vec<String>) -> (r: Option<Blocklist>)
        ensures
            r is Some <==> in_order(addresses@.map_values(|a: String| a@)),
            r matches Some(list) ==> list@ == addresses@.map_values(|a: String| a@),
    {
        let ghost list = addresses@.map_values(|a: String| a@);
        let n: usize = addresses.len();
        let mut i: usize = 1;
        while i < n
            invariant
                1 <= i,
                n == addresses@.len(),
                i <= n || n == 0,
                list == addresses@.map_values(|a: String| a@),
                in_order(list.take(i as int)) || n == 0,
            decreases n - i,
        {
            let side = side_of(addresses[i - 1].as_str(), addresses[i].as_str());
            if let Side::After = side {
                proof {
                    if in_order(list) {
                        assert(not_after(list[i - 1], list[i as int]));
                        let a = encode_utf8(list[i - 1]);
                        let b = encode_utf8(list[i as int]);
                        if before(a, b) {
                            lemma_before_transitive(a, b, a);
                        }
                        lemma_before_irreflexive(a);
                    }
                }
                return None;
            }
            proof {
                let prefix = list.take(i + 1);
                assert(not_after(list[i - 1], list[i as int]));
                assert forall|j: int, k: int|
                    #![trigger prefix[j], prefix[k]]
                    0 <= j < k < prefix.len() implies not_after(prefix[j], prefix[k]) by {
                    assert(list.take(i as int)[j] == prefix[j]);
                    if k < i {
                        assert(list.take(i as int)[k] == prefix[k]);
                    } else if j < i - 1 {
                        assert(list.take(i as int)[i - 1] == list[i - 1]);
                        if list[i - 1] != list[i as int] {
                            lemma_not_after_before(list[j], list[i - 1], list[i as int]);
                        }
                    }
                }
            }
            i = i + 1;
        }
        assert(n > 0 ==> list.take(n as int) =~= list);
        Some(Blocklist { addresses })
    }

    /// Whether `address`, without the white space around it, is on the list.
    pub fn blocks(&self, address: &str) -> (r: bool)
        ensures
            r == self@.contains(trimmed(address@)),
    {
        proof {
            use_type_invariant(&*self);
        }
        let target = trim(address);
        let mut low: usize = 0;
        let mut high: usize = self.addresses.len();
        while low < high
            invariant
                low <= high <= self.addresses@.len(),
                target@ == trimmed(address@),
                in_order(self@),
                forall|i: int|
                    0 <= i < low ==> before(encode_utf8(#[trigger] self@[i]), encode_utf8(target@)),
                forall|i: int|
                    high <= i < self@.len() ==> before(
                        encode_utf8(target@),
                        encode_utf8(#[trigger] self@[i]),
                    ),
            decreases high - low,
        {
            let middle: usize = low + (high - low) / 2;
            assert(self@[middle as int] == self.addresses@[middle as int]@);
            match side_of(self.addresses[middle].as_str(), target) {
                Side::Same => {
                    assert(self@[middle as int] == target@);
                    return true;
                },
                Side::Before => {
                    assert forall|i: int| 0 <= i < middle + 1 implies before(
                        encode_utf8(#[trigger] self@[i]),
                        encode_utf8(target@),
                    ) by {
                        if i < middle {
                            lemma_not_after_before(self@[i], self@[middle as int], target@);
                        }
                    }
                    low = middle + 1;
                },
                Side::After => {
                    assert forall|i: int| middle <= i < self@.len() implies before(
                        encode_utf8(target@),
                        encode_utf8(#[trigger] self@[i]),
                    ) by {
                        if middle < i {
                            lemma_before_not_after(target@, self@[middle as int], self@[i]);
                        }
                    }
                    high = middle;
                },
            }
        }
        proof {
            lemma_before_irreflexive(encode_utf8(target@));
        }
        false
    }
}

/// The order of a blocklist is that of a dictionary over bytes: where two strings first differ,
/// the smaller byte comes first, a string comes before its continuations, and of two different
/// strings exactly one comes first.
pub proof fn law_byte_order(p: Seq<u8>, x: u8, y: u8, s: Seq<u8>, t: Seq<u8>)
    ensures
        x < y ==> before(p + seq![x] + s, p + seq![y] + t) && !before(
            p + seq![y] + t,
            p + seq![x] + s,
        ),
        before(p, p + seq![x] + s) && !before(p + seq![x] + s, p),
        !before(p, p),
{
    let n = p.len() as int;
    let a = p + seq![x] + s;
    let b = p + seq![y] + t;
    assert(a[n] == x && b[n] == y);
    if x < y {
        assert(first_difference(a, b, n));
        if before(b, a) {
            lemma_before_transitive(a, b, a);
            lemma_before_irreflexive(a);
        }
    }
    assert(first_difference(p, a, n));
    if before(a, p) {
        lemma_before_transitive(p, a, p);
        lemma_before_irreflexive(p);
    }
}

/// A list is in order exactly if each address comes not after the ones behind it: one more may be
/// put at the end exactly if none on the list comes after it.
pub proof fn law_order_of_a_list(list: Seq<Seq<char>>, last: Seq<char>)
    ensures
        in_order(Seq::<Seq<char>>::empty()),
        in_order(list.push(last)) <==> in_order(list) && forall|i: int|
            0 <= i < list.len() ==> (#[trigger] list[i] == last || before(
                encode_utf8(list[i]),
                encode_utf8(last),
            )),
{
    let longer = list.push(last);
    let n = list.len() as int;
    if in_order(longer) {
        assert forall|i: int, j: int|
            #![trigger list[i], list[j]]
            0 <= i < j < list.len() implies not_after(list[i], list[j]) by {
            assert(longer[i] == list[i] && longer[j] == list[j]);
        }
        assert forall|i: int| 0 <= i < list.len() implies (#[trigger] list[i] == last || before(
            encode_utf8(list[i]),
            encode_utf8(last),
        )) by {
            assert(longer[i] == list[i] && longer[n] == last);
        }
    }
    if in_order(list) && forall|i: int|
        0 <= i < list.len() ==> (#[trigger] list[i] == last || before(
            encode_utf8(list[i]),
            encode_utf8(last),
        )) {
        assert forall|i: int, j: int|
            #![trigger longer[i], longer[j]]
            0 <= i < j < longer.len() implies not_after(longer[i], longer[j]) by {
            assert(longer[i] == list[i]);
            if j < n {
                assert(longer[j] == list[j]);
            }
        }
    }
}

} // verus!
