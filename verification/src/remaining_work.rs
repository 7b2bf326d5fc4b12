//! The features by which a classifier tells whether a message leaves work
//! undone, and when its verdict counts.

use vstd::prelude::*;
use vstd::utf8::*;
use crate::segments;
use crate::text;

verus! {

/// The number of buckets that features are hashed into.
pub const DIM: usize = 1024;

/// The number of words below which a message is too short for a verdict.
pub const MIN_WORDS: usize = 24;

/// One step of the FNV-1a hash.
pub open spec fn spec_fnv1a_step(hash: u64, byte: u8) -> u64 {
    vstd::wrapping::u64_specs::wrapping_mul(hash ^ (byte as u64), 0x0000_0100_0000_01b3u64)
}

/// The 64-bit FNV-1a hash of `bytes`.
pub open spec fn spec_fnv1a(bytes: Seq<u8>) -> u64
    decreases bytes.len(),
{
    if bytes.len() == 0 {
        0xcbf2_9ce4_8422_2325u64
    } else {
        spec_fnv1a_step(spec_fnv1a(bytes.drop_last()), bytes.last())
    }
}

/// The 64-bit FNV-1a hash of `bytes`.
pub fn fnv1a(bytes: &[u8]) -> (hash: u64)
    ensures
        hash == spec_fnv1a(bytes@),
{
    let mut hash: u64 = 0xcbf2_9ce4_8422_2325;
    let mut i: usize = 0;
    assert(bytes@.take(0) =~= seq![]);
    while i < bytes.len()
        invariant
            i <= bytes.len(),
            hash == spec_fnv1a(bytes@.take(i as int)),
        decreases bytes.len() - i,
    {
        assert(bytes@.take(i + 1).drop_last() =~= bytes@.take(i as int));
        hash = (hash ^ (bytes[i] as u64)).wrapping_mul(0x0000_0100_0000_01b3);
        i = i + 1;
    }
    assert(bytes@.take(bytes@.len() as int) =~= bytes@);
    hash
}

/// A text with its ASCII letters in lowercase and everything but ASCII letters
/// and digits blanked out.
pub open spec fn spec_cleaned(s: Seq<char>) -> Seq<char> {
    s.map_values(
        |c: char|
            if text::is_ascii_word_char(c) {
                text::spec_ascii_lower(c)
            } else {
                ' '
            },
    )
}

fn cleaned(s: &str) -> (r: String)
    ensures
        r@ == spec_cleaned(s@),
{
    let cs = text::chars_of(s);
    let mut r = String::new();
    let mut i: usize = 0;
    assert(r@ =~= spec_cleaned(s@.take(0)));
    while i < cs.len()
        invariant
            cs@ == s@,
            i <= cs.len(),
            r@ == spec_cleaned(s@.take(i as int)),
        decreases cs.len() - i,
    {
        let c = cs[i];
        if text::is_ascii_word(c) {
            r.push(text::ascii_lower(c));
        } else {
            r.push(' ');
        }
        assert(r@ =~= spec_cleaned(s@.take(i + 1)));
        i = i + 1;
    }
    assert(s@.take(s@.len() as int) =~= s@);
    r
}

/// The bucket of a gram.
pub open spec fn spec_bucket(gram: Seq<char>) -> nat {
    spec_fnv1a(encode_utf8(gram)) as nat % DIM as nat
}

fn bucket(gram: &str) -> (r: usize)
    ensures
        r == spec_bucket(gram@),
        r < DIM,
{
    let bytes = gram.as_bytes();
    let hash: u64 = fnv1a(bytes);
    (hash % (DIM as u64)) as usize
}

/// The buckets of `words`.
pub open spec fn spec_word_buckets(words: Seq<Seq<char>>) -> Seq<nat> {
    words.map_values(|word: Seq<char>| spec_bucket(word))
}

/// Two neighbouring words as one gram.
pub open spec fn spec_pair(first: Seq<char>, second: Seq<char>) -> Seq<char> {
    first + "_"@ + second
}

/// The buckets of the pairs of neighbours among `words`.
pub open spec fn spec_pair_buckets(words: Seq<Seq<char>>) -> Seq<nat>
    decreases words.len(),
{
    if words.len() < 2 {
        seq![]
    } else {
        spec_pair_buckets(words.drop_last()).push(
            spec_bucket(spec_pair(words[words.len() - 2], words.last())),
        )
    }
}

/// The buckets that the features of a text fall into: one for each word, then
/// one for each pair of neighbouring words.
pub open spec fn spec_feature_buckets(s: Seq<char>) -> Seq<nat> {
    let words = segments::spec_words(spec_cleaned(s));
    spec_word_buckets(words) + spec_pair_buckets(words)
}

/// Buckets as natural numbers.
pub open spec fn spec_nats(buckets: Seq<usize>) -> Seq<nat> {
    buckets.map_values(|b: usize| b as nat)
}

/// Hashes the words and the pairs of neighbouring words of a text into buckets.
pub fn feature_buckets(s: &str) -> (r: Vec<usize>)
    ensures
        spec_nats(r@) == spec_feature_buckets(s@),
        forall|i: int| 0 <= i < r@.len() ==> #[trigger] r@[i] < DIM,
{
    let plain = cleaned(s);
    let words = segments::words(plain.as_str());
    let ghost all = segments::spec_words(spec_cleaned(s@));
    let mut r: Vec<usize> = Vec::new();
    let mut i: usize = 0;
    assert(spec_nats(r@) =~= spec_word_buckets(all.take(0)));
    while i < words.len()
        invariant
            i <= words.len(),
            words.deep_view() == all,
            spec_nats(r@) == spec_word_buckets(all.take(i as int)),
            forall|j: int| 0 <= j < r@.len() ==> #[trigger] r@[j] < DIM,
        decreases words.len() - i,
    {
        assert(all[i as int] == words@[i as int]@);
        let ghost before = spec_nats(r@);
        let b: usize = bucket(words[i]);
        r.push(b);
        assert(spec_nats(r@) =~= before.push(b as nat));
        assert(spec_word_buckets(all.take(i + 1)) =~= spec_word_buckets(all.take(i as int)).push(
            spec_bucket(all[i as int]),
        ));
        i = i + 1;
    }
    assert(all.take(all.len() as int) =~= all);
    let ghost singles = spec_word_buckets(all);
    let mut k: usize = 1;
    proof {
        if all.len() > 0 {
            assert(spec_pair_buckets(all.take(1)) =~= seq![]);
            assert(singles + spec_pair_buckets(all.take(1)) =~= singles);
        }
    }
    while k < words.len()
        invariant
            1 <= k,
            all.len() > 0 ==> k <= words.len(),
            words.deep_view() == all,
            all.len() > 0 ==> spec_nats(r@) == singles + spec_pair_buckets(all.take(k as int)),
            all.len() == 0 ==> spec_nats(r@) == singles,
            forall|j: int| 0 <= j < r@.len() ==> #[trigger] r@[j] < DIM,
        decreases words.len() - k,
    {
        assert(all[k as int] == words@[k as int]@);
        assert(all[k - 1] == words@[k - 1]@);
        let mut gram = text::owned(words[k - 1]);
        gram.append("_");
        gram.append(words[k]);
        let ghost before = spec_nats(r@);
        let b: usize = bucket(gram.as_str());
        r.push(b);
        proof {
            assert(spec_nats(r@) =~= before.push(b as nat));
            assert(all.take(k + 1).drop_last() =~= all.take(k as int));
            assert(spec_nats(r@) =~= singles + spec_pair_buckets(all.take(k + 1)));
        }
        k = k + 1;
    }
    proof {
        assert(all.take(all.len() as int) =~= all);
        if all.len() == 0 {
            assert(spec_pair_buckets(all) =~= seq![]);
            assert(singles + spec_pair_buckets(all) =~= singles);
        }
    }
    r
}

/// The verdict on a message, given whether it is nearer to messages that leave
/// work than to messages that do not. There is none on a message that is blank
/// or shorter than any the classifier has seen.
pub open spec fn spec_verdict(message: Seq<char>, nearer_to_remaining: bool) -> Option<bool> {
    if text::is_blank(message) || segments::spec_words(message).len() < MIN_WORDS {
        None
    } else {
        Some(nearer_to_remaining)
    }
}

/// Whether a message leaves work undone, given whether its features are nearer
/// to messages that do than to messages that do not. `None` on a message that
/// is too short to tell.
pub fn indicates_remaining_work(message: &str, nearer_to_remaining: bool) -> (r: Option<bool>)
    ensures
        r == spec_verdict(message@, nearer_to_remaining),
{
    if text::blank(message) {
        return None;
    }
    if segments::words(message).len() < MIN_WORDS {
        return None;
    }
    Some(nearer_to_remaining)
}

// ---------------------------------------------------------------------------
// Laws
// ---------------------------------------------------------------------------

/// The classifier abstains on exactly the messages that are too short,
/// whatever their features are near to.
pub proof fn law_short_messages_get_no_verdict(message: Seq<char>, nearer: bool)
    ensures
        spec_verdict(message, nearer) is None <==> text::is_blank(message)
            || segments::spec_words(message).len() < MIN_WORDS,
        spec_verdict(message, nearer) is None <==> spec_verdict(message, !nearer) is None,
{
}

/// A text gives as many features as it has words and pairs of neighbours.
pub proof fn law_feature_count(s: Seq<char>)
    ensures
        ({
            let n = segments::spec_words(spec_cleaned(s)).len();
            spec_feature_buckets(s).len() == if n == 0 {
                0
            } else {
                2 * n - 1
            }
        }),
{
    lemma_pair_count(segments::spec_words(spec_cleaned(s)));
}

proof fn lemma_pair_count(words: Seq<Seq<char>>)
    ensures
        spec_pair_buckets(words).len() == if words.len() < 2 {
            0
        } else {
            words.len() - 1
        },
    decreases words.len(),
{
    if words.len() >= 2 {
        lemma_pair_count(words.drop_last());
    }
}

/// The features of a message are its words, then each word with the next one,
/// in their order.
pub proof fn law_features_are_words_and_pairs(s: Seq<char>, i: int)
    ensures
        ({
            let words = segments::spec_words(spec_cleaned(s));
            let n = words.len() as int;
            &&& 0 <= i < n ==> spec_feature_buckets(s)[i] == spec_bucket(words[i])
            &&& 0 <= i < n - 1 ==> spec_feature_buckets(s)[n + i] == spec_bucket(
                words[i] + "_"@ + words[i + 1],
            )
            &&& spec_feature_buckets(s).len() == if n > 0 {
                2 * n - 1
            } else {
                0
            }
        }),
{
    lemma_pair_buckets(segments::spec_words(spec_cleaned(s)), i);
}

proof fn lemma_pair_buckets(words: Seq<Seq<char>>, i: int)
    ensures
        spec_pair_buckets(words).len() == if words.len() > 0 {
            words.len() - 1
        } else {
            0
        },
        0 <= i < words.len() - 1 ==> spec_pair_buckets(words)[i] == spec_bucket(
            words[i] + "_"@ + words[i + 1],
        ),
    decreases words.len(),
{
    if words.len() >= 2 {
        lemma_pair_buckets(words.drop_last(), i);
    }
}

/// Cleaning keeps the place of every character: an ASCII capital becomes small,
/// an ASCII small letter or digit stays, anything else becomes a space.
pub proof fn law_cleaning_keeps_places(s: Seq<char>, i: int)
    requires
        0 <= i < s.len(),
    ensures
        spec_cleaned(s).len() == s.len(),
        0x41 <= s[i] as int <= 0x5a ==> spec_cleaned(s)[i] as int == s[i] as int + 0x20,
        0x61 <= s[i] as int <= 0x7a || 0x30 <= s[i] as int <= 0x39 ==> spec_cleaned(s)[i] == s[i],
        !(0x41 <= s[i] as int <= 0x5a) && !(0x61 <= s[i] as int <= 0x7a) && !(0x30 <= s[i] as int
            <= 0x39) ==> spec_cleaned(s)[i] as int == 0x20,
{
}

/// A message of fewer than twenty-four words gets no verdict; any other one
/// gets that of the comparison.
pub proof fn law_long_messages_get_the_verdict(message: Seq<char>, nearer: bool)
    requires
        !text::is_blank(message),
    ensures
        segments::spec_words(message).len() < 24 ==> spec_verdict(message, nearer) is None,
        segments::spec_words(message).len() >= 24 ==> spec_verdict(message, nearer) == Some(nearer),
{
}

/// A bucket is one of a thousand and twenty-four.
pub proof fn law_buckets_are_in_range(gram: Seq<char>)
    ensures
        spec_bucket(gram) < 1024,
        spec_bucket(gram) == spec_fnv1a(encode_utf8(gram)) as nat % 1024,
{
}

/// The hash of a text takes in its bytes one by one, each by an exclusive or and
/// a multiplication that wraps around.
pub proof fn law_hash_takes_in_byte_by_byte(bytes: Seq<u8>, byte: u8)
    ensures
        spec_fnv1a(seq![]) == 0xcbf2_9ce4_8422_2325u64,
        spec_fnv1a(bytes.push(byte)) == vstd::wrapping::u64_specs::wrapping_mul(
            spec_fnv1a(bytes) ^ (byte as u64),
            0x0000_0100_0000_01b3u64,
        ),
{
    assert(bytes.push(byte).drop_last() =~= bytes);
}

} // verus!
