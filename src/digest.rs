//! The request signature: a salted concatenation of fields, hashed with
//! SHA-1 and written as lowercase hex.
use sha1::Digest;
use vstd::prelude::*;
use vstd::string::StringExecFns;

verus! {

/// The salt appended after the fields of every signed request.
pub const SALT: &'static str = "itauVfnexHiRigZ6";

/// The entrance code sent with a login, which is also signed.
pub const ENTRANCE: &'static str = "1";

/// The 20-byte SHA-1 digest of the UTF-8 encoding of `text`.
pub uninterp spec fn sha1_of(text: Seq<char>) -> Seq<u8>;

/// The lowercase hex digit for `n` (`0 <= n < 16`).
pub open spec fn hex_digit(n: int) -> char {
    seq!['0', '1', '2', '3', '4', '5', '6', '7', '8', '9', 'a', 'b', 'c', 'd', 'e', 'f'][n]
}

/// Two lowercase hex digits per byte, high nibble first.
pub open spec fn hex_text(b: Seq<u8>) -> Seq<char>
    decreases b.len(),
{
    if b.len() == 0 {
        Seq::empty()
    } else {
        hex_text(b.drop_last()) + seq![hex_digit((b.last() / 16) as int), hex_digit((b.last() % 16) as int)]
    }
}

/// Hex text has two digits per byte.
pub proof fn lemma_hex_text_len(b: Seq<u8>)
    ensures
        hex_text(b).len() == 2 * b.len(),
    decreases b.len(),
{
    if b.len() > 0 {
        lemma_hex_text_len(b.drop_last());
    }
}

/// The fields written one after another, in order.
pub open spec fn concat_texts(fields: Seq<String>) -> Seq<char>
    decreases fields.len(),
{
    if fields.len() == 0 {
        Seq::empty()
    } else {
        concat_texts(fields.drop_last()) + fields.last()@
    }
}

/// The signature of `fields` under `salt`.
pub open spec fn signature(fields: Seq<String>, salt: Seq<char>) -> Seq<char> {
    hex_text(sha1_of(concat_texts(fields) + salt))
}

proof fn lemma_concat_same_texts(f1: Seq<String>, f2: Seq<String>)
    requires
        f1.len() == f2.len(),
        forall|i: int| 0 <= i < f1.len() ==> (#[trigger] f1[i])@ == f2[i]@,
    ensures
        concat_texts(f1) == concat_texts(f2),
    decreases f1.len(),
{
    if f1.len() > 0 {
        lemma_concat_same_texts(f1.drop_last(), f2.drop_last());
    }
}

/// The digest depends on the text of the fields and the salt alone: fields
/// that read the same, in the same order, under the same salt, give the same
/// digest on every run.
pub proof fn lemma_digest_deterministic(f1: Seq<String>, f2: Seq<String>, salt: Seq<char>)
    requires
        f1.len() == f2.len(),
        forall|i: int| 0 <= i < f1.len() ==> (#[trigger] f1[i])@ == f2[i]@,
    ensures
        signature(f1, salt) == signature(f2, salt),
{
    lemma_concat_same_texts(f1, f2);
}

/// Relies on `sha1::Sha1` through `digest::Digest::digest`: the SHA-1 digest
/// of the text's UTF-8 bytes, 20 bytes long.
#[verifier::external_body]
fn sha1_bytes(text: &str) -> (r: Vec<u8>)
    ensures
        r@ == sha1_of(text@),
        r@.len() == 20,
{
    sha1::Sha1::digest(text.as_bytes()).to_vec()
}

/// Relies on `hex::encode`: two lowercase hex digits for each byte, in order.
#[verifier::external_body]
fn hex_string(b: &Vec<u8>) -> (r: String)
    ensures
        r@ == hex_text(b@),
{
    hex::encode(b)
}

/// Hashes the fields, in the order given, followed by the salt, and returns
/// the lowercase hex digest.
pub fn digest(fields: &Vec<String>, salt: &str) -> (r: String)
    ensures
        r@ == signature(fields@, salt@),
        r@.len() == 40,
{
    let mut text = String::new();
    let mut i: usize = 0;
    while i < fields.len()
        invariant
            i <= fields@.len(),
            text@ == concat_texts(fields@.take(i as int)),
        decreases fields@.len() - i,
    {
        text.append(fields[i].as_str());
        proof {
            assert(fields@.take(i as int + 1).drop_last() =~= fields@.take(i as int));
        }
        i = i + 1;
    }
    assert(fields@.take(i as int) =~= fields@);
    text.append(salt);
    let h = sha1_bytes(text.as_str());
    proof {
        lemma_hex_text_len(h@);
    }
    hex_string(&h)
}

/// The login signature: the digest of user name, password and entrance code, salted.
pub fn login_digest(username: &str, password: &str) -> (r: String)
    ensures
        r@ == hex_text(sha1_of(username@ + password@ + ENTRANCE@ + SALT@)),
        r@.len() == 40,
{
    let mut fields: Vec<String> = Vec::new();
    fields.push(String::from_str(username));
    fields.push(String::from_str(password));
    fields.push(String::from_str(ENTRANCE));
    let r = digest(&fields, SALT);
    proof {
        let f = fields@;
        assert(f.drop_last().drop_last().drop_last() =~= Seq::<String>::empty());
        reveal_with_fuel(concat_texts, 4);
        assert(concat_texts(fields@) =~= username@ + password@ + ENTRANCE@);
    }
    r
}

} // verus!
