//! Types and helpers shared by the other modules.

use sp_std::collections::btree_set::BTreeSet;
use sp_std::vec::Vec;
use vstd::arithmetic::div_mod::{lemma_fundamental_div_mod, lemma_mod_bound};
use vstd::arithmetic::power2::{lemma_pow2_pos, pow2};
use vstd::bits::lemma_u32_shr_is_div;
use vstd::prelude::*;
use vstd::std_specs::bits::axiom_u32_leading_zeros;
use vstd::std_specs::cmp::PartialEqSpec;

verus! {

/// Identifier of a space.
pub type SpaceId = u64;

/// Identifier of an account.
pub type AccountId = u64;

/// Height of a block: the logical clock of the chain.
pub type BlockNumber = u64;

/// Wall-clock time as the chain reports it.
pub type Moment = u64;

/// Who did something, in which block and at what time.
#[derive(Clone, Copy, Debug, PartialEq, Eq, Structural)]
pub struct WhoAndWhen {
    pub account: AccountId,
    pub block: BlockNumber,
    pub time: Moment,
}

impl WhoAndWhen {
    /// Records `account` as acting in block `block` at time `time`.
    pub fn new(account: AccountId, block: BlockNumber, time: Moment) -> (r: WhoAndWhen)
        ensures
            r == (WhoAndWhen { account, block, time }),
    {
        WhoAndWhen { account, block, time }
    }
}

/// An account or a space, where either can act.
#[derive(Clone, Copy, Debug, PartialEq, Eq, Structural)]
pub enum User {
    Account(AccountId),
    Space(SpaceId),
}

impl User {
    /// The pair by which users are ordered: accounts come before spaces, and two of a kind
    /// are ordered by their ids.
    pub open spec fn spec_key(self) -> (u8, u64) {
        match self {
            User::Account(id) => (0u8, id),
            User::Space(id) => (1u8, id),
        }
    }

    /// The pair by which users are ordered.
    #[verifier::when_used_as_spec(spec_key)]
    pub fn key(self) -> (r: (u8, u64))
        ensures
            r == self.spec_key(),
    {
        match self {
            User::Account(id) => (0u8, id),
            User::Space(id) => (1u8, id),
        }
    }

    /// The user that `key` stands for, if it stands for one.
    pub fn from_key(key: (u8, u64)) -> (r: Option<User>)
        ensures
            r matches Some(user) ==> user.spec_key() == key,
            r is None <==> key.0 > 1,
    {
        if key.0 == 0 {
            Some(User::Account(key.1))
        } else if key.0 == 1 {
            Some(User::Space(key.1))
        } else {
            None
        }
    }
}

/// Where the content of a post, a space or a profile is kept.
#[derive(Clone, Debug, PartialEq, Eq)]
pub enum Content {
    /// There is no content.
    Nothing,
    /// The content itself, as bytes.
    Raw(Vec<u8>),
    /// The content identifier of a file on IPFS.
    IPFS(Vec<u8>),
    /// The address of a Hypercore feed.
    Hyper(Vec<u8>),
}

/// Why a content or a handle was refused.
#[derive(Clone, Copy, Debug, PartialEq, Eq, Structural)]
pub enum Error {
    /// The bytes are no content identifier.
    InvalidIpfsCid,
    /// Content given as raw bytes is not supported.
    RawContentTypeNotSupported,
    /// Content on Hypercore is not supported.
    HypercoreContentTypeNotSupported,
    /// The handle is shorter than allowed.
    HandleIsTooShort,
    /// The handle is longer than allowed.
    HandleIsTooLong,
    /// The handle holds a character other than `0-9`, `a-z` and `_`.
    HandleContainsInvalidChars,
}

/// The number of bits of a value of type `P`.
fn num_bits<P>() -> (r: usize)
    requires
        vstd::layout::size_of::<P>() * 8 <= usize::MAX,
    ensures
        r == vstd::layout::size_of::<P>() * 8,
{
    sp_std::mem::size_of::<P>() * 8
}

/// The binary logarithm of `x`, rounded down: the `k` with `2^k <= x < 2^(k+1)`. Zero has
/// none.
pub fn log_2(x: u32) -> (r: Option<u32>)
    ensures
        x == 0 <==> r is None,
        r matches Some(k) ==> k < 32 && pow2(k as nat) <= x < 2 * pow2(k as nat),
{
    if x > 0 {
        let zeros = x.leading_zeros();
        proof {
            axiom_u32_leading_zeros(x);
        }
        let k: u32 = num_bits::<u32>() as u32 - zeros - 1;
        proof {
            assert((x >> k) & 1u32 != 0u32);
            if k < 31 {
                let above: u32 = (k + 1) as u32;
                assert(x >> above == 0u32);
                assert(x >> k == 1u32) by (bit_vector)
                    requires
                        k < 31,
                        above == k + 1,
                        (x >> k) & 1u32 != 0u32,
                        x >> above == 0u32,
                ;
            } else {
                assert(x >> k == 1u32) by (bit_vector)
                    requires
                        k == 31,
                        (x >> k) & 1u32 != 0u32,
                ;
            }
            let d = pow2(k as nat) as int;
            lemma_u32_shr_is_div(x, k);
            lemma_pow2_pos(k as nat);
            assert(x as int / d == 1);
            lemma_fundamental_div_mod(x as int, d);
            lemma_mod_bound(x as int, d);
            assert(d * (x as int / d) == d);
        }
        Some(k)
    } else {
        None
    }
}

/// The place of the first element of `s` that equals `element`, or the length of `s` if
/// there is none.
pub open spec fn first_match<F: PartialEq>(s: Seq<F>, element: F) -> int
    decreases s.len(),
{
    if s.len() == 0 {
        0
    } else if s[0].eq_spec(&element) {
        0
    } else {
        1 + first_match(s.drop_first(), element)
    }
}

/// The first match of `element` lies within `s` or at its end, and nothing before it
/// matches.
pub proof fn lemma_first_match<F: PartialEq>(s: Seq<F>, element: F)
    ensures
        0 <= first_match(s, element) <= s.len(),
        first_match(s, element) < s.len() ==> s[first_match(s, element)].eq_spec(&element),
        forall|i: int| 0 <= i < first_match(s, element) ==> !(#[trigger] s[i]).eq_spec(&element),
    decreases s.len(),
{
    if s.len() > 0 && !s[0].eq_spec(&element) {
        let rest = s.drop_first();
        lemma_first_match(rest, element);
        assert forall|i: int| 0 <= i < first_match(s, element) implies
            !(#[trigger] s[i]).eq_spec(&element) by {
            if i > 0 {
                assert(s[i] == rest[i - 1]);
            }
        }
    }
}

/// Removes from `vector` the first element that equals `element`, if there is one; the last
/// element takes its place.
pub fn vec_remove_on<F: PartialEq>(vector: &mut Vec<F>, element: F)
    ensures
        F::obeys_eq_spec() ==> final(vector)@ == ({
            let at = first_match(old(vector)@, element);
            if at < old(vector)@.len() {
                old(vector)@.update(at, old(vector)@.last()).drop_last()
            } else {
                old(vector)@
            }
        }),
{
    let mut index: usize = 0;
    proof {
        lemma_first_match(vector@, element);
    }
    while index < vector.len()
        invariant
            index <= vector.len(),
            vector@ == old(vector)@,
            F::obeys_eq_spec() ==> forall|i: int|
                0 <= i < index ==> !(#[trigger] vector@[i]).eq_spec(&element),
            F::obeys_eq_spec() ==> index <= first_match(vector@, element),
        decreases vector.len() - index,
    {
        if vector[index] == element {
            proof {
                lemma_first_match(vector@, element);
            }
            vector.swap_remove(index);
            return;
        }
        proof {
            lemma_first_match(vector@, element);
        }
        index += 1;
    }
    proof {
        lemma_first_match(vector@, element);
    }
}

/// Whether the bytes start with a content identifier, as the crate `cid` reads them.
pub uninterp spec fn is_cid(bytes: Seq<u8>) -> bool;

/// Asks `cid::Cid::try_from` whether it can read a content identifier from `bytes`. What it
/// answers depends on the bytes alone; which bytes it accepts is not stated here.
#[verifier::external_body]
fn parses_as_cid(bytes: Vec<u8>) -> (ok: bool)
    ensures
        ok == is_cid(bytes@),
{
    cid::Cid::try_from(bytes).is_ok()
}

/// The error of `content`, if it is of a kind that is not supported or is no content
/// identifier; `cid_ok` tells whether the bytes of an IPFS content are one.
pub open spec fn content_error(content: Content, cid_ok: bool) -> Option<Error> {
    match content {
        Content::Nothing => None,
        Content::Raw(_) => Some(Error::RawContentTypeNotSupported),
        Content::IPFS(_) => if cid_ok {
            None
        } else {
            Some(Error::InvalidIpfsCid)
        },
        Content::Hyper(_) => Some(Error::HypercoreContentTypeNotSupported),
    }
}

/// The bytes of `content` that have to be a content identifier, if it has any.
pub open spec fn cid_bytes(content: Content) -> Seq<u8> {
    match content {
        Content::IPFS(bytes) => bytes@,
        _ => Seq::empty(),
    }
}

/// Whether `c` may stand in a handle: a digit, a small letter or an underscore.
pub open spec fn spec_is_valid_handle_char(c: u8) -> bool {
    (0x30 <= c <= 0x39) || (0x61 <= c <= 0x7a) || c == 0x5f
}

/// Whether `c` may stand in a handle: a digit, a small letter or an underscore.
#[verifier::when_used_as_spec(spec_is_valid_handle_char)]
pub fn is_valid_handle_char(c: u8) -> (r: bool)
    ensures
        r == spec_is_valid_handle_char(c),
{
    (0x30 <= c && c <= 0x39) || (0x61 <= c && c <= 0x7a) || c == 0x5f
}

/// The byte `c` with a capital ASCII letter made small.
pub open spec fn lowercase_byte(c: u8) -> u8 {
    if 0x41 <= c <= 0x5a {
        (c + 32) as u8
    } else {
        c
    }
}

/// The bytes `s` with every capital ASCII letter made small.
pub open spec fn lowercase(s: Seq<u8>) -> Seq<u8> {
    s.map_values(|c: u8| lowercase_byte(c))
}

/// The bytes of `handle` with every capital ASCII letter made small.
pub fn to_lowercase(handle: &Vec<u8>) -> (r: Vec<u8>)
    ensures
        r@ == lowercase(handle@),
{
    let mut r: Vec<u8> = Vec::new();
    let mut i: usize = 0;
    while i < handle.len()
        invariant
            i <= handle.len(),
            r@ == lowercase(handle@.take(i as int)),
        decreases handle.len() - i,
    {
        let c: u8 = handle[i];
        let low: u8 = if 0x41 <= c && c <= 0x5a {
            c + 32
        } else {
            c
        };
        r.push(low);
        proof {
            assert(handle@.take(i + 1) =~= handle@.take(i as int).push(c));
            assert(r@ =~= lowercase(handle@.take(i + 1)));
        }
        i += 1;
    }
    proof {
        assert(handle@.take(handle@.len() as int) =~= handle@);
    }
    r
}

/// Whether every byte of `s` may stand in a handle.
pub open spec fn all_valid_handle_chars(s: Seq<u8>) -> bool {
    forall|i: int| 0 <= i < s.len() ==> spec_is_valid_handle_char(#[trigger] s[i])
}

/// Whether every byte of `handle` may stand in a handle.
pub fn has_only_valid_handle_chars(handle: &Vec<u8>) -> (r: bool)
    ensures
        r == all_valid_handle_chars(handle@),
{
    let mut i: usize = 0;
    while i < handle.len()
        invariant
            i <= handle.len(),
            all_valid_handle_chars(handle@.take(i as int)),
        decreases handle.len() - i,
    {
        if !is_valid_handle_char(handle[i]) {
            return false;
        }
        proof {
            assert forall|j: int| 0 <= j < i + 1 implies spec_is_valid_handle_char(
                #[trigger] handle@.take(i + 1)[j],
            ) by {
                if j < i {
                    assert(handle@.take(i as int)[j] == handle@[j]);
                }
            }
        }
        i += 1;
    }
    proof {
        assert(handle@.take(handle@.len() as int) =~= handle@);
    }
    true
}

/// The error of a handle of a length outside `min_len..=max_len`, or with a character that
/// is not valid once the capital letters are made small.
pub open spec fn handle_error(min_len: u32, max_len: u32, handle: Seq<u8>) -> Option<Error> {
    if handle.len() < min_len {
        Some(Error::HandleIsTooShort)
    } else if handle.len() > max_len {
        Some(Error::HandleIsTooLong)
    } else if !all_valid_handle_chars(lowercase(handle)) {
        Some(Error::HandleContainsInvalidChars)
    } else {
        None
    }
}

/// The limits on handles and content identifiers.
#[derive(Clone, Copy, Debug, PartialEq, Eq, Structural)]
pub struct Module {
    /// The length in bytes of a valid content identifier.
    pub ipfs_cid_len: u32,
    /// The least length of a handle.
    pub min_handle_len: u32,
    /// The greatest length of a handle.
    pub max_handle_len: u32,
}

impl Module {
    /// Tells `content` with `cid_ok` apart: nothing is wrong with no content and with an IPFS
    /// content whose bytes are a content identifier; the other kinds are not supported.
    pub fn check_content(content: &Content, cid_ok: bool) -> (r: Result<(), Error>)
        ensures
            r == (match content_error(*content, cid_ok) {
                Some(e) => Err::<(), Error>(e),
                None => Ok::<(), Error>(()),
            }),
    {
        match content {
            Content::Nothing => Ok(()),
            Content::Raw(_) => Err(Error::RawContentTypeNotSupported),
            Content::IPFS(_) => {
                if cid_ok {
                    Ok(())
                } else {
                    Err(Error::InvalidIpfsCid)
                }
            },
            Content::Hyper(_) => Err(Error::HypercoreContentTypeNotSupported),
        }
    }

    /// Accepts no content, and an IPFS content whose bytes are a content identifier; raw and
    /// Hypercore content are not supported.
    pub fn is_valid_content(content: Content) -> (r: Result<(), Error>)
        ensures
            r == (match content_error(content, is_cid(cid_bytes(content))) {
                Some(e) => Err::<(), Error>(e),
                None => Ok::<(), Error>(()),
            }),
    {
        match content {
            Content::IPFS(ipfs_cid) => {
                let cid_ok = parses_as_cid(ipfs_cid);
                if cid_ok {
                    Ok(())
                } else {
                    Err(Error::InvalidIpfsCid)
                }
            },
            other => Module::check_content(&other, false),
        }
    }

    /// The set of the users in `users_vec`, each by its key.
    pub fn convert_users_vec_to_btree_set(users_vec: Vec<User>) -> (r: Result<
        BTreeSet<(u8, u64)>,
        Error,
    >)
        ensures
            r is Ok,
            r->Ok_0@ == users_vec@.map_values(|u: User| u.spec_key()).to_set(),
    {
        let mut users_set: BTreeSet<(u8, u64)> = BTreeSet::new();
        let ghost keys = users_vec@.map_values(|u: User| u.spec_key());
        let mut i: usize = 0;
        while i < users_vec.len()
            invariant
                i <= users_vec.len(),
                keys == users_vec@.map_values(|u: User| u.spec_key()),
                users_set@ == keys.take(i as int).to_set(),
            decreases users_vec.len() - i,
        {
            users_set.insert(users_vec[i].key());
            proof {
                assert(keys.take(i + 1) =~= keys.take(i as int).push(keys[i as int]));
                keys.take(i as int).lemma_push_to_set_commute(keys[i as int]);
            }
            i += 1;
        }
        proof {
            assert(keys.take(keys.len() as int) =~= keys);
        }
        Ok(users_set)
    }

    /// Makes the capital letters of `handle` small and hands the result back, if its length
    /// is within the limits and it then holds only digits, small letters and underscores.
    pub fn lowercase_and_validate_a_handle(&self, handle: Vec<u8>) -> (r: Result<Vec<u8>, Error>)
        ensures
            match handle_error(self.min_handle_len, self.max_handle_len, handle@) {
                Some(e) => r == Err::<Vec<u8>, Error>(e),
                None => r is Ok && r->Ok_0@ == lowercase(handle@),
            },
    {
        if handle.len() < self.min_handle_len as usize {
            return Err(Error::HandleIsTooShort);
        }
        if handle.len() > self.max_handle_len as usize {
            return Err(Error::HandleIsTooLong);
        }
        let handle_in_lowercase = to_lowercase(&handle);
        if !has_only_valid_handle_chars(&handle_in_lowercase) {
            return Err(Error::HandleContainsInvalidChars);
        }
        Ok(handle_in_lowercase)
    }
}

} // verus!
