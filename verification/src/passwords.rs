//! Random passwords for users that are added without one.

use vstd::prelude::*;
use rand::Rng;
use crate::text::string_of;
use crate::validate::is_alphanumeric;

verus! {

/// How many characters a generated password has.
pub const PASSWORD_LENGTH: usize = 8;

/// Whether a byte is an ASCII letter or digit.
pub open spec fn is_alphanumeric_byte(b: u8) -> bool {
    (48 <= b <= 57) || (65 <= b <= 90) || (97 <= b <= 122)
}

/// A letter in the case asked for; a digit stays as it is.
pub open spec fn in_case(b: u8, upper: bool) -> u8 {
    if upper && 97 <= b <= 122 {
        (b - 32) as u8
    } else if !upper && 65 <= b <= 90 {
        (b + 32) as u8
    } else {
        b
    }
}

/// The password made of the sampled bytes, each in the sampled case.
pub open spec fn password_of(samples: Seq<(u8, bool)>) -> Seq<char> {
    Seq::new(samples.len(), |i: int| in_case(samples[i].0, samples[i].1) as char)
}

/// Whether `password` could have been generated: eight ASCII letters and
/// digits.
pub open spec fn is_generated(password: Seq<char>) -> bool {
    &&& password.len() == PASSWORD_LENGTH
    &&& forall|i: int| 0 <= i < password.len() ==> is_alphanumeric(#[trigger] password[i])
}

/// `Rng::sample` of the `rand` crate with its `Alphanumeric` distribution,
/// on the generator of this thread: the byte is an ASCII letter or digit,
/// and which one is left open. The generator is seeded by the operating
/// system when a thread first uses it, and that first use fails loudly on
/// a system that cannot give a seed.
#[verifier::external_body]
fn random_alphanumeric() -> (b: u8)
    ensures
        is_alphanumeric_byte(b),
{
    rand::thread_rng().sample(rand::distributions::Alphanumeric)
}

/// `Rng::gen_ratio` of the `rand` crate with one chance in two, on the
/// generator of this thread. Nothing is claimed of the result.
#[verifier::external_body]
fn random_flip() -> bool {
    rand::thread_rng().gen_ratio(1, 2)
}

/// Puts a letter in the case asked for.
pub fn apply_case(b: u8, upper: bool) -> (out: u8)
    ensures
        out == in_case(b, upper),
        is_alphanumeric_byte(b) ==> is_alphanumeric_byte(out),
{
    if upper && b >= 97 && b <= 122 {
        b - 32
    } else if !upper && b >= 65 && b <= 90 {
        b + 32
    } else {
        b
    }
}

/// Builds a password from sampled bytes and cases.
pub fn password_from(samples: &[(u8, bool)]) -> (password: String)
    ensures
        password@ == password_of(samples@),
{
    let mut out: Vec<char> = Vec::new();
    let mut i: usize = 0;
    while i < samples.len()
        invariant
            i <= samples.len(),
            out@ == password_of(samples@).take(i as int),
        decreases samples.len() - i,
    {
        let sample = samples[i];
        out.push(apply_case(sample.0, sample.1) as char);
        assert(out@ =~= password_of(samples@).take(i + 1));
        i += 1;
    }
    assert(password_of(samples@).take(samples.len() as int) =~= password_of(samples@));
    string_of(out.as_slice())
}

/// Generates a password of eight random ASCII letters and digits.
pub fn generate_random_password() -> (password: String)
    ensures
        is_generated(password@),
{
    let mut samples: Vec<(u8, bool)> = Vec::new();
    let mut i: usize = 0;
    while i < PASSWORD_LENGTH
        invariant
            i <= PASSWORD_LENGTH,
            samples@.len() == i,
            forall|k: int| 0 <= k < i ==> is_alphanumeric_byte((#[trigger] samples@[k]).0),
        decreases PASSWORD_LENGTH - i,
    {
        let b = random_alphanumeric();
        let upper = random_flip();
        samples.push((b, upper));
        i += 1;
    }
    let password = password_from(samples.as_slice());
    proof {
        lemma_password_shape(samples@);
    }
    password
}

/// A password made of letters and digits is made of letters and digits
/// whatever the cases, and is as long as there are samples.
pub proof fn lemma_password_shape(samples: Seq<(u8, bool)>)
    requires
        forall|k: int| 0 <= k < samples.len() ==> is_alphanumeric_byte((#[trigger] samples[k]).0),
    ensures
        password_of(samples).len() == samples.len(),
        forall|i: int| 0 <= i < samples.len() ==> is_alphanumeric(#[trigger] password_of(samples)[i]),
{
    assert forall|i: int| 0 <= i < samples.len() implies is_alphanumeric(
        #[trigger] password_of(samples)[i],
    ) by {
        let b = in_case(samples[i].0, samples[i].1);
        assert(is_alphanumeric_byte(samples[i].0));
        assert(is_alphanumeric_byte(b));
        assert(password_of(samples)[i] == b as char);
    }
}

} // verus!
