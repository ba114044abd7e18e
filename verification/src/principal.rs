//! Principals, the identifiers of canisters, nodes, subnets and users.
use vstd::prelude::*;

verus! {

/// The greatest number of bytes of a principal.
pub const MAX_PRINCIPAL_LENGTH: usize = 29;

/// An identifier of at most [`MAX_PRINCIPAL_LENGTH`] bytes. Unused bytes of the
/// buffer are zero, so that equal identifiers are equal values.
#[derive(Clone, Copy, PartialEq, Eq, Debug)]
pub struct Principal {
    len: u8,
    bytes: [u8; 29],
}

impl View for Principal {
    type V = Seq<u8>;

    closed spec fn view(&self) -> Seq<u8> {
        self.bytes@.take(self.len as int)
    }
}

/// The text that stands for the principal with the given bytes.
pub uninterp spec fn principal_text(bytes: Seq<u8>) -> Seq<char>;

/// What parsing `text` as a principal gives: its bytes, or the error message.
pub uninterp spec fn parsed_principal(text: Seq<char>) -> Result<Seq<u8>, Seq<char>>;

/// What the outcome of a parse holds.
pub open spec fn outcome_of(r: Result<Vec<u8>, String>) -> Result<Seq<u8>, Seq<char>> {
    match r {
        Ok(bytes) => Ok(bytes@),
        Err(message) => Err(message@),
    }
}

/// Whether `text` is accepted as the text of the principal with the given bytes.
pub open spec fn parses_to(text: Seq<char>, bytes: Seq<u8>) -> bool {
    parsed_principal(text) matches Ok(parsed) && parsed == bytes
}

/// Whether `text` is refused as a principal, with the given message.
pub open spec fn refused_with(text: Seq<char>, message: Seq<char>) -> bool {
    parsed_principal(text) matches Err(told) && told == message
}

/// `c`, in lower case if it is an ASCII letter.
pub open spec fn ascii_lower(c: char) -> char {
    if 'A' <= c <= 'Z' {
        ((c as u32) + 32) as char
    } else {
        c
    }
}

/// `text` with every ASCII letter in lower case.
pub open spec fn ascii_lowercase(text: Seq<char>) -> Seq<char> {
    text.map_values(|c: char| ascii_lower(c))
}

/// Calls `candid::Principal::from_text` and hands out the bytes of the
/// principal, or the message of the error. Claimed of it: the outcome depends on
/// the text alone; a principal has at most 29 bytes; and a text is accepted only
/// if it is, but for the case of its letters, the text of the principal it gives.
#[verifier::external_body]
fn candid_from_text(text: &str) -> (r: Result<Vec<u8>, String>)
    ensures
        outcome_of(r) == parsed_principal(text@),
        r matches Ok(bytes) ==> bytes@.len() <= MAX_PRINCIPAL_LENGTH
            && principal_text(bytes@) == ascii_lowercase(text@),
{
    match candid::Principal::from_text(text) {
        Ok(principal) => Ok(principal.as_slice().to_vec()),
        Err(error) => Err(error.to_string()),
    }
}

/// Calls `candid::Principal::try_from_slice` and hands out the bytes of the
/// principal, or the message of the error. Claimed of it: at most 29 bytes are
/// accepted and kept as they are; more are refused with one fixed message.
#[verifier::external_body]
fn candid_try_from_slice(bytes: &[u8]) -> (r: Result<Vec<u8>, String>)
    ensures
        r is Ok <==> bytes@.len() <= MAX_PRINCIPAL_LENGTH,
        r matches Ok(kept) ==> kept@ == bytes@,
        r matches Err(message) ==> message@ == "Bytes is longer than 29 bytes."@,
{
    match candid::Principal::try_from_slice(bytes) {
        Ok(principal) => Ok(principal.as_slice().to_vec()),
        Err(error) => Err(error.to_string()),
    }
}

/// Calls `candid::Principal::to_text` on the principal with the given bytes.
/// Claimed of it: the text depends on the bytes alone, and parsing it gives the
/// bytes back. More than 29 bytes are left out: no principal has them.
#[verifier::external_body]
fn candid_to_text(bytes: &[u8]) -> (text: String)
    requires
        bytes@.len() <= MAX_PRINCIPAL_LENGTH,
    ensures
        text@ == principal_text(bytes@),
        parses_to(text@, bytes@),
{
    candid::Principal::from_slice(bytes).to_text()
}

impl Principal {
    #[verifier::type_invariant]
    closed spec fn well_formed(self) -> bool {
        &&& self.len <= MAX_PRINCIPAL_LENGTH
        &&& forall|i: int| self.len <= i < MAX_PRINCIPAL_LENGTH ==> self.bytes@[i] == 0
    }

    /// The principal with the given bytes.
    pub closed spec fn of_bytes(bytes: Seq<u8>) -> Principal {
        choose|p: Principal| p.well_formed() && p@ == bytes
    }

    proof fn lemma_view_determines(p: Principal, q: Principal)
        requires
            p.well_formed(),
            q.well_formed(),
            p@ == q@,
        ensures
            p == q,
    {
        assert(p@.len() == p.len && q@.len() == q.len);
        assert forall|i: int| 0 <= i < MAX_PRINCIPAL_LENGTH implies p.bytes@[i]
            == q.bytes@[i] by {
            if i < p.len {
                assert(p@[i] == p.bytes@[i] && q@[i] == q.bytes@[i]);
            }
        }
        assert(p.bytes@ =~= q.bytes@);
        assert(p.bytes =~= q.bytes);
    }

    /// A buffer that holds the first `k` of the bytes, and zeros after them.
    proof fn lemma_buffer(bytes: Seq<u8>, k: nat) -> (buffer: [u8; 29])
        requires
            k <= bytes.len() <= MAX_PRINCIPAL_LENGTH,
        ensures
            forall|j: int| 0 <= j < k ==> buffer@[j] == bytes[j],
            forall|j: int| k <= j < MAX_PRINCIPAL_LENGTH ==> buffer@[j] == 0,
        decreases k,
    {
        if k == 0 {
            vstd::array::spec_array_fill_for_copy_type::<u8, 29>(0)
        } else {
            let before = Self::lemma_buffer(bytes, (k - 1) as nat);
            let buffer = vstd::array::spec_array_update(before, k - 1, bytes[k - 1]);
            assert(buffer@ == before@.update(k - 1, bytes[k - 1]));
            buffer
        }
    }

    /// There is a principal for every sequence of at most 29 bytes, and it has those bytes.
    pub proof fn law_principal_of_bytes(bytes: Seq<u8>)
        requires
            bytes.len() <= 29,
        ensures
            Principal::of_bytes(bytes)@ == bytes,
    {
        let buffer = Self::lemma_buffer(bytes, bytes.len());
        let p = Principal { len: bytes.len() as u8, bytes: buffer };
        assert(p@ =~= bytes);
        assert(p.well_formed());
    }

    /// A principal of bytes that are known to fit.
    fn from_fitting(bytes: &Vec<u8>) -> (p: Principal)
        requires
            bytes@.len() <= MAX_PRINCIPAL_LENGTH,
        ensures
            p@ == bytes@,
            p == Principal::of_bytes(bytes@),
    {
        let mut buffer: [u8; 29] = [0u8; 29];
        let mut i: usize = 0;
        while i < bytes.len()
            invariant
                i <= bytes@.len() <= MAX_PRINCIPAL_LENGTH,
                forall|j: int| 0 <= j < i ==> buffer@[j] == bytes@[j],
                forall|j: int| i <= j < MAX_PRINCIPAL_LENGTH ==> buffer@[j] == 0,
            decreases bytes@.len() - i,
        {
            buffer[i] = bytes[i];
            i = i + 1;
        }
        let p = Principal { len: bytes.len() as u8, bytes: buffer };
        proof {
            assert(p@ =~= bytes@);
            Self::lemma_view_determines(p, Principal::of_bytes(bytes@));
        }
        p
    }

    /// Reads a principal from its raw bytes. More than 29 bytes are refused.
    pub fn try_from_slice(bytes: &[u8]) -> (r: Result<Principal, String>)
        ensures
            r is Ok <==> bytes@.len() <= MAX_PRINCIPAL_LENGTH,
            r matches Ok(p) ==> p@ == bytes@ && p == Principal::of_bytes(bytes@),
            r matches Err(message) ==> message@ == "Bytes is longer than 29 bytes."@,
    {
        match candid_try_from_slice(bytes) {
            Ok(kept) => Ok(Self::from_fitting(&kept)),
            Err(message) => Err(message),
        }
    }

    /// Reads a principal from its text.
    pub fn from_text(text: &str) -> (r: Result<Principal, String>)
        ensures
            match r {
                Ok(p) => {
                    &&& parses_to(text@, p@)
                    &&& p == Principal::of_bytes(p@)
                    &&& principal_text(p@) == ascii_lowercase(text@)
                },
                Err(message) => refused_with(text@, message@),
            },
    {
        match candid_from_text(text) {
            Ok(bytes) => Ok(Self::from_fitting(&bytes)),
            Err(message) => Err(message),
        }
    }

    /// The raw bytes of the principal.
    pub fn as_bytes(&self) -> (bytes: Vec<u8>)
        ensures
            bytes@ == self@,
            bytes@.len() <= MAX_PRINCIPAL_LENGTH,
    {
        proof {
            use_type_invariant(&*self);
        }
        let mut bytes: Vec<u8> = Vec::new();
        let n: usize = self.len as usize;
        let mut i: usize = 0;
        while i < n
            invariant
                i <= n <= MAX_PRINCIPAL_LENGTH,
                n == self.len,
                bytes@ =~= self.bytes@.take(i as int),
            decreases n - i,
        {
            bytes.push(self.bytes[i]);
            i = i + 1;
        }
        bytes
    }

    /// The text of the principal. Parsing it gives the principal back.
    pub fn to_text(&self) -> (text: String)
        ensures
            text@ == principal_text(self@),
            parses_to(text@, self@),
    {
        let bytes = self.as_bytes();
        candid_to_text(bytes.as_slice())
    }
}

/// Writing in lower case changes the capital letters of ASCII, each to its small letter, and
/// nothing else.
pub proof fn law_lower_case(text: Seq<char>, i: int)
    requires
        0 <= i < text.len(),
    ensures
        ascii_lowercase(text).len() == text.len(),
        'A' <= text[i] <= 'Z' ==> ascii_lowercase(text)[i] as u32 == text[i] as u32 + 32,
        !('A' <= text[i] <= 'Z') ==> ascii_lowercase(text)[i] == text[i],
{
}

} // verus!
