//! Draws from the process's random number generator.

use vstd::prelude::*;

use crate::config;
use crate::protocol;
use crate::protocol::ChannelId;
use crate::text::chars_of;

verus! {

/// `Rng::gen_range` of `rand::thread_rng`: some index below `bound`.
#[verifier::external_body]
pub(crate) fn random_index(bound: usize) -> (i: usize)
    requires
        bound > 0,
    ensures
        i < bound,
{
    rand::Rng::gen_range(&mut rand::thread_rng(), 0..bound)
}

/// `rand::random::<u64>`: any number.
#[verifier::external_body]
pub(crate) fn random_u64() -> (n: u64)
{
    rand::random::<u64>()
}

/// `rand::random::<[u8; 32]>`: any 32 bytes.
#[verifier::external_body]
pub(crate) fn random_key() -> (key: Vec<u8>)
    ensures
        key@.len() == config::VOICE_KEY_LEN,
{
    rand::random::<[u8; 32]>().to_vec()
}

/// `rand::random::<[u8; 24]>`: any 24 bytes.
#[verifier::external_body]
pub(crate) fn random_nonce() -> (nonce: Vec<u8>)
    ensures
        nonce@.len() == config::XCHACHA20_NONCE_SIZE,
{
    rand::random::<[u8; 24]>().to_vec()
}

/// The id that the given positions in the charset spell.
pub open spec fn id_at(positions: Seq<usize>) -> Seq<char> {
    positions.map_values(|p: usize| protocol::CHANNEL_ID_CHARSET@[p as int])
}

/// The channel id that a list of positions in the charset spells.
pub fn channel_id_of(positions: &Vec<usize>) -> (id: ChannelId)
    requires
        forall|i: int|
            0 <= i < positions@.len() ==> (#[trigger] positions@[i])
                < protocol::CHANNEL_ID_CHARSET@.len(),
    ensures
        id@ == id_at(positions@),
        positions@.len() == config::CHANNEL_ID_LEN ==> protocol::is_generated_id(id@),
{
    let charset = chars_of(protocol::CHANNEL_ID_CHARSET);
    let mut id = String::new();
    let mut i: usize = 0;
    while i < positions.len()
        invariant
            i <= positions@.len(),
            charset@ == protocol::CHANNEL_ID_CHARSET@,
            forall|j: int|
                0 <= j < positions@.len() ==> (#[trigger] positions@[j])
                    < protocol::CHANNEL_ID_CHARSET@.len(),
            id@ == id_at(positions@.subrange(0, i as int)),
        decreases positions.len() - i,
    {
        id.push(charset[positions[i]]);
        i = i + 1;
        proof {
            assert(positions@.subrange(0, i as int) =~= positions@.subrange(0, i - 1).push(
                positions@[i - 1],
            ));
            assert(id@ =~= id_at(positions@.subrange(0, i as int)));
        }
    }
    assert(positions@.subrange(0, i as int) =~= positions@);
    assert forall|j: int| 0 <= j < id@.len() implies protocol::CHANNEL_ID_CHARSET@.contains(
        #[trigger] id@[j],
    ) by {
        assert(id@[j] == protocol::CHANNEL_ID_CHARSET@[positions@[j] as int]);
    }
    id
}

/// A random short channel id.
pub fn generate_channel_id() -> (id: ChannelId)
    ensures
        protocol::is_generated_id(id@),
{
    proof {
        reveal_strlit("abcdefghjkmnpqrstuvwxyz23456789");
    }
    let mut positions: Vec<usize> = Vec::new();
    while positions.len() < config::CHANNEL_ID_LEN
        invariant
            positions@.len() <= config::CHANNEL_ID_LEN,
            protocol::CHANNEL_ID_CHARSET@.len() == 31,
            forall|i: int|
                0 <= i < positions@.len() ==> (#[trigger] positions@[i])
                    < protocol::CHANNEL_ID_CHARSET@.len(),
        decreases config::CHANNEL_ID_LEN - positions@.len(),
    {
        positions.push(random_index(31));
    }
    channel_id_of(&positions)
}

/// How many ids of `len` characters there are.
pub open spec fn id_count(len: nat) -> nat
    decreases len,
{
    if len == 0 {
        1
    } else {
        31 * id_count((len - 1) as nat)
    }
}

/// The `n`-th id of `len` characters.
pub open spec fn numbered_id(n: nat, len: nat) -> Seq<char>
    decreases len,
{
    if len == 0 {
        Seq::empty()
    } else {
        numbered_id(n / 31, (len - 1) as nat).push(
            protocol::CHANNEL_ID_CHARSET@[(n % 31) as int],
        )
    }
}

/// The number of ids of five characters.
pub const CHANNEL_ID_COUNT: u64 = 28_629_151;

pub proof fn lemma_charset_len()
    ensures
        protocol::CHANNEL_ID_CHARSET@.len() == 31,
{
    reveal_strlit("abcdefghjkmnpqrstuvwxyz23456789");
}

pub proof fn lemma_numbered_id(n: nat, len: nat)
    ensures
        numbered_id(n, len).len() == len,
        forall|i: int|
            0 <= i < len ==> protocol::CHANNEL_ID_CHARSET@.contains(
                #[trigger] numbered_id(n, len)[i],
            ),
    decreases len,
{
    lemma_charset_len();
    if len > 0 {
        lemma_numbered_id(n / 31, (len - 1) as nat);
    }
}

/// Every id made of the charset is numbered.
pub proof fn lemma_every_id_numbered(id: Seq<char>) -> (n: nat)
    requires
        forall|i: int|
            0 <= i < id.len() ==> protocol::CHANNEL_ID_CHARSET@.contains(#[trigger] id[i]),
    ensures
        n < id_count(id.len()),
        numbered_id(n, id.len()) == id,
    decreases id.len(),
{
    lemma_charset_len();
    if id.len() == 0 {
        assert(numbered_id(0, 0) =~= id);
        0
    } else {
        assert forall|i: int|
            0 <= i < id.drop_last().len() implies protocol::CHANNEL_ID_CHARSET@.contains(
            #[trigger] id.drop_last()[i],
        ) by {
            assert(id.drop_last()[i] == id[i]);
        }
        let m = lemma_every_id_numbered(id.drop_last());
        assert(protocol::CHANNEL_ID_CHARSET@.contains(id[id.len() - 1]));
        let p = choose|p: int|
            0 <= p < protocol::CHANNEL_ID_CHARSET@.len() && protocol::CHANNEL_ID_CHARSET@[p]
                == id.last();
        let n = (m * 31 + p) as nat;
        assert(n / 31 == m && n % 31 == p);
        assert(numbered_id(n, id.len()) =~= id.drop_last().push(id.last()));
        n
    }
}

/// The `n`-th generated channel id.
pub fn nth_channel_id(n: u64) -> (id: ChannelId)
    ensures
        id@ == numbered_id(n as nat, config::CHANNEL_ID_LEN as nat),
        protocol::is_generated_id(id@),
{
    let charset = chars_of(protocol::CHANNEL_ID_CHARSET);
    proof {
        lemma_charset_len();
        lemma_numbered_id(n as nat, config::CHANNEL_ID_LEN as nat);
    }
    let mut id = String::new();
    push_numbered(&mut id, &charset, n, config::CHANNEL_ID_LEN);
    assert(id@ =~= numbered_id(n as nat, config::CHANNEL_ID_LEN as nat));
    id
}

/// Appends the `n`-th id of `len` characters.
fn push_numbered(s: &mut String, charset: &Vec<char>, n: u64, len: usize)
    requires
        charset@ == protocol::CHANNEL_ID_CHARSET@,
        charset@.len() == 31,
    ensures
        final(s)@ == old(s)@ + numbered_id(n as nat, len as nat),
    decreases len,
{
    if len > 0 {
        push_numbered(s, charset, n / 31, len - 1);
        s.push(charset[(n % 31) as usize]);
    }
    assert(s@ =~= old(s)@ + numbered_id(n as nat, len as nat));
}

} // verus!
