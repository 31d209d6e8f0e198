//! The hash entity: construction by hashing, by assembly through a builder,
//! by import of raw bytes, or by decoding the canonical string; rendering;
//! and verification of a candidate password.
use vstd::prelude::*;
use vstd::slice::slice_to_vec;
use vstd::string::*;
use vstd::utf8::*;

use crate::algorithms::argon2i::{argon2i_outcome, Argon2i};
use crate::algorithms::bcrypt::{
    bcrypt_error_text, bcrypt_hash, bcrypt_shaped, bcrypt_verdict, bcrypt_verify, Bcrypt,
};
use crate::algorithms::scrypt::{scrypt_outcome, Scrypt};
use crate::encoding::{base64_decode, base64_decoded, base64_encode, base64_len, base64_of};
use crate::models::hash_algorithm::{
    algorithm_named, identifier_of, lemma_identifier_round_trip, outcome_view, HashAlgorithm,
    HashingAlgorithm,
};
use crate::text::{
    chars_of, decimal_list, decimal_text, free_of, hex_of, hex_text, join_on, lemma_join_split,
    lemma_split_on_append_piece, push_char, split_dollar, split_on, string_of,
    text_of_bytes, utf8_lossy, utf8_text,
};

verus! {

/// Salt material: opaque bytes.
pub type Salt = Vec<u8>;

/// A password hash: the derived bytes, the salt they were derived with, and
/// the algorithm that derived them.
#[derive(Clone, Debug, Eq, Hash, Ord, PartialEq, PartialOrd)]
pub struct Hash {
    /// The derived bytes (for Bcrypt, the bytes of its self-describing string).
    pub hash: Vec<u8>,
    /// The salt; empty for Bcrypt, whose output carries its own salt.
    pub salt: Salt,
    /// The algorithm that derived `hash`.
    pub algorithm: HashAlgorithm,
}

/// The fewest characters a password may have.
pub const MIN_PASSWORD_CHARS: usize = 8;

/// The error for a password with fewer than eight characters.
pub const PASSWORD_TOO_SHORT: &'static str =
    "Password is too short. It must be at least 8 characters.";

/// The error for a salt (or, for Bcrypt, a stored hash) that is not UTF-8.
pub const SALT_NOT_TEXT: &'static str = "Failed to convert salt to string";

/// The error for a Bcrypt hash whose bytes are not UTF-8.
pub const HASH_NOT_TEXT: &'static str = "Failed to convert hash to string";

/// The error when Bcrypt cannot check a password against a stored hash.
pub const BCRYPT_CHECK_FAILED: &'static str = "Failed to verify Bcrypt password";

/// The error when Argon2i cannot rehash a candidate password.
pub const ARGON2I_CHECK_FAILED: &'static str = "Argon2i hashing failed";

/// The error when Scrypt cannot rehash a candidate password.
pub const SCRYPT_CHECK_FAILED: &'static str = "Scrypt hashing failed";

/// The start of the error when Bcrypt refuses to hash.
pub const BCRYPT_HASH_FAILED: &'static str = "Failed to hash password with Bcrypt: ";

/// The error for a canonical string without six `$`-separated segments.
pub const INVALID_HASH_STRING: &'static str = "Invalid hash string";

/// The error of a builder that lacks a field.
pub const MISSING_FIELDS: &'static str = "Missing fields";

/// The error for an identifier outside the supported set.
pub open spec fn unsupported_message(algo: Seq<char>) -> Seq<char> {
    "Unsupported hash algorithm: "@ + algo
}

/// The error for a hash segment that is not Base64.
pub open spec fn base64_error_message(segment: Seq<char>) -> Seq<char> {
    "Failed to decode base64: "@ + segment
}

/// Whether `result` is an outcome of algorithm `a`'s provider on `password`
/// and `salt`.
pub open spec fn produces(
    a: HashAlgorithm,
    password: Seq<char>,
    salt: Seq<char>,
    result: Result<Seq<u8>, Seq<char>>,
) -> bool {
    match a {
        HashAlgorithm::Argon2i => <Argon2i as HashingAlgorithm>::hashes_to(password, salt, result),
        HashAlgorithm::Bcrypt => <Bcrypt as HashingAlgorithm>::hashes_to(password, salt, result),
        HashAlgorithm::Scrypt => <Scrypt as HashingAlgorithm>::hashes_to(password, salt, result),
    }
}

/// Whether `h` is an entity that `Hash::new(password, salt, algo)` returns.
pub open spec fn built_by_new(h: Hash, password: Seq<char>, salt: Seq<char>, algo: Seq<char>) -> bool {
    &&& password.len() >= MIN_PASSWORD_CHARS
    &&& algorithm_named(algo) == Some(h.algorithm)
    &&& h.salt@ == encode_utf8(salt)
    &&& produces(h.algorithm, password, salt, Ok(h.hash@))
}

/// The simple colon form: the salt as text, `:`, the hash in hex.
pub open spec fn simple_text(h: Hash) -> Seq<char> {
    text_of_bytes(h.salt@) + ":"@ + hex_of(h.hash@)
}

/// The extended form: the salt as text, `$`, the hash in Base64.
pub open spec fn extended_text(h: Hash) -> Seq<char> {
    text_of_bytes(h.salt@) + "$"@ + base64_of(h.hash@)
}

/// Whether `s` is what `to_string_extended` renders for `h`, together with
/// what the rendering guarantees of its Base64 part.
pub open spec fn renders_extended(h: Hash, s: Seq<char>) -> bool {
    &&& s == extended_text(h)
    &&& free_of(base64_of(h.hash@), '$')
    &&& base64_decoded(base64_of(h.hash@)) == Some(h.hash@)
}

/// The salt text that the decoder rebuilds from the four middle segments.
pub open spec fn parameter_text(parts: Seq<Seq<char>>) -> Seq<char> {
    seq!['$'] + parts[1] + seq!['$'] + parts[2] + seq!['$'] + parts[3] + seq!['$'] + parts[4]
}

/// What decoding a canonical string yields: the algorithm, the salt text
/// (the middle segments with their `$`), and the hash bytes; or the error.
/// The algorithm segment is judged before the exact segment count, so a
/// string naming an unknown algorithm reports that algorithm.
pub open spec fn decoded_fields(s: Seq<char>) -> Result<(HashAlgorithm, Seq<char>, Seq<u8>), Seq<char>> {
    let parts = split_on(s, '$');
    if parts.len() < 6 {
        Err(INVALID_HASH_STRING@)
    } else {
        match algorithm_named(parts[1]) {
            None => Err(unsupported_message(parts[1])),
            Some(a) => if parts.len() != 6 {
                Err(INVALID_HASH_STRING@)
            } else {
                match base64_decoded(parts[5]) {
                    None => Err(base64_error_message(parts[5])),
                    Some(b) => Ok((a, parameter_text(parts), b)),
                }
            },
        }
    }
}

/// What `parse_algorithm` makes of a string: the algorithm named by its
/// second `$`-separated segment.
pub open spec fn algorithm_of_text(s: Seq<char>) -> Result<HashAlgorithm, Seq<char>> {
    let parts = split_on(s, '$');
    if parts.len() < 2 {
        Err(INVALID_HASH_STRING@)
    } else {
        match algorithm_named(parts[1]) {
            None => Err(unsupported_message(parts[1])),
            Some(a) => Ok(a),
        }
    }
}

/// The answer of `verify` for an entity and a candidate password.
pub open spec fn verdict(h: Hash, password: Seq<char>) -> Result<bool, Seq<char>> {
    if !valid_utf8(h.salt@) {
        Err(SALT_NOT_TEXT@)
    } else {
        let salt = decode_utf8(h.salt@);
        match h.algorithm {
            HashAlgorithm::Argon2i => match argon2i_outcome(password, salt) {
                Ok(d) => Ok(d == h.hash@),
                Err(_) => Err(ARGON2I_CHECK_FAILED@),
            },
            HashAlgorithm::Bcrypt => if !valid_utf8(h.hash@) {
                Err(HASH_NOT_TEXT@)
            } else {
                match bcrypt_verdict(password, decode_utf8(h.hash@)) {
                    Some(b) => Ok(b),
                    None => Err(BCRYPT_CHECK_FAILED@),
                }
            },
            HashAlgorithm::Scrypt => match scrypt_outcome(password, salt) {
                Ok(d) => Ok(d == h.hash@),
                Err(_) => Err(SCRYPT_CHECK_FAILED@),
            },
        }
    }
}

/// The `Display`-style rendering of an entity.
pub open spec fn display_text(h: Hash) -> Seq<char> {
    "Hash { hash: ["@ + decimal_list(h.hash@) + "] }"@
}

/// The error for an unsupported identifier.
fn unsupported(algo: &str) -> (r: String)
    ensures
        r@ == unsupported_message(algo@),
{
    let mut r = "Unsupported hash algorithm: ".to_owned();
    r.append(algo);
    r
}

/// Whether two byte sequences are equal; every position is compared, so the
/// time taken depends on the lengths only.
fn bytes_equal(a: &Vec<u8>, b: &Vec<u8>) -> (r: bool)
    ensures
        r == (a@ == b@),
{
    if a.len() != b.len() {
        return false;
    }
    let mut same = true;
    let mut i: usize = 0;
    while i < a.len()
        invariant
            a.len() == b.len(),
            i <= a.len(),
            same == (forall|j: int| 0 <= j < i ==> a@[j] == b@[j]),
        decreases a.len() - i,
    {
        if a[i] != b[i] {
            same = false;
        }
        i = i + 1;
    }
    proof {
        if same {
            assert(a@ =~= b@);
        }
    }
    same
}

impl Hash {
    /// The algorithm that derived this hash.
    pub fn algorithm(&self) -> (r: HashAlgorithm)
        ensures
            r == self.algorithm,
    {
        self.algorithm
    }

    /// The derived bytes.
    pub fn hash(&self) -> (r: &[u8])
        ensures
            r@ == self.hash@,
    {
        self.hash.as_slice()
    }

    /// The number of derived bytes.
    pub fn hash_length(&self) -> (r: usize)
        ensures
            r == self.hash@.len(),
    {
        self.hash.len()
    }

    /// The salt bytes.
    pub fn salt(&self) -> (r: &[u8])
        ensures
            r@ == self.salt@,
    {
        self.salt.as_slice()
    }

    /// Replaces the derived bytes.
    pub fn set_hash(&mut self, hash: &[u8])
        ensures
            final(self).hash@ == hash@,
            final(self).salt == old(self).salt,
            final(self).algorithm == old(self).algorithm,
    {
        self.hash = slice_to_vec(hash);
    }

    /// Replaces the salt bytes.
    pub fn set_salt(&mut self, salt: &[u8])
        ensures
            final(self).salt@ == salt@,
            final(self).hash == old(self).hash,
            final(self).algorithm == old(self).algorithm,
    {
        self.salt = slice_to_vec(salt);
    }

    /// Wraps bytes derived elsewhere under a known algorithm, with an empty
    /// salt.
    pub fn from_hash(hash: &[u8], algo: &str) -> (r: Result<Hash, String>)
        ensures
            match algorithm_named(algo@) {
                None => r matches Err(e) && e@ == unsupported_message(algo@),
                Some(a) => r matches Ok(h) && h.hash@ == hash@ && h.salt@.len() == 0
                    && h.algorithm == a,
            },
    {
        match HashAlgorithm::from_identifier(algo) {
            None => Err(unsupported(algo)),
            Some(algorithm) => Ok(Hash { salt: Vec::new(), hash: slice_to_vec(hash), algorithm }),
        }
    }

    /// Hashes `password` with `salt` under the algorithm named `algo`.
    pub fn generate_hash(password: &str, salt: &str, algo: &str) -> (r: Result<Vec<u8>, String>)
        ensures
            match algorithm_named(algo@) {
                None => r matches Err(e) && e@ == unsupported_message(algo@),
                Some(a) => produces(a, password@, salt@, outcome_view(r)),
            },
    {
        match HashAlgorithm::from_identifier(algo) {
            Some(HashAlgorithm::Argon2i) => Argon2i::hash_password(password, salt),
            Some(HashAlgorithm::Bcrypt) => Bcrypt::hash_password(password, salt),
            Some(HashAlgorithm::Scrypt) => Scrypt::hash_password(password, salt),
            None => Err(unsupported(algo)),
        }
    }

    /// Hashes `password` with `salt` under the algorithm named `algo`. A
    /// password of fewer than eight characters is refused first.
    pub fn new(password: &str, salt: &str, algo: &str) -> (r: Result<Hash, String>)
        ensures
            password@.len() < MIN_PASSWORD_CHARS ==> (r matches Err(e) && e@ == PASSWORD_TOO_SHORT@),
            password@.len() >= MIN_PASSWORD_CHARS ==> match algorithm_named(algo@) {
                None => r matches Err(e) && e@ == unsupported_message(algo@),
                Some(a) => match r {
                    Ok(h) => built_by_new(h, password@, salt@, algo@),
                    Err(e) => produces(a, password@, salt@, Err(e@)),
                },
            },
    {
        if password.unicode_len() < MIN_PASSWORD_CHARS {
            return Err(PASSWORD_TOO_SHORT.to_owned());
        }
        let hash = match Self::generate_hash(password, salt, algo) {
            Ok(h) => h,
            Err(e) => return Err(e),
        };
        let algorithm = match HashAlgorithm::from_identifier(algo) {
            Some(a) => a,
            None => return Err(unsupported(algo)),
        };
        Ok(Hash { hash, salt: salt.as_bytes_vec(), algorithm })
    }

    /// Recomputes the derived bytes from `password` and `salt` under the
    /// algorithm named `algo`; the salt and algorithm fields stay as they are.
    pub fn set_password(&mut self, password: &str, salt: &str, algo: &str) -> (r: Result<(), String>)
        ensures
            final(self).salt == old(self).salt,
            final(self).algorithm == old(self).algorithm,
            match algorithm_named(algo@) {
                None => r matches Err(e) && e@ == unsupported_message(algo@)
                    && final(self).hash == old(self).hash,
                Some(a) => match r {
                    Ok(_) => produces(a, password@, salt@, Ok(final(self).hash@)),
                    Err(e) => produces(a, password@, salt@, Err(e@))
                        && final(self).hash == old(self).hash,
                },
            },
    {
        match Self::generate_hash(password, salt, algo) {
            Ok(h) => {
                self.hash = h;
                Ok(())
            },
            Err(e) => Err(e),
        }
    }
}

/// A staging record for the three fields of a [`Hash`]; `build` yields the
/// entity once all three are present.
#[derive(Clone, Debug, Eq, Hash, Ord, PartialEq, PartialOrd)]
pub struct HashBuilder {
    hash: Option<Vec<u8>>,
    salt: Option<Salt>,
    algorithm: Option<HashAlgorithm>,
}

impl View for HashBuilder {
    type V = (Option<Seq<u8>>, Option<Seq<u8>>, Option<HashAlgorithm>);

    closed spec fn view(&self) -> Self::V {
        (
            match self.hash {
                Some(h) => Some(h@),
                None => None,
            },
            match self.salt {
                Some(s) => Some(s@),
                None => None,
            },
            self.algorithm,
        )
    }
}

impl HashBuilder {
    /// A builder with no field set.
    pub fn new() -> (r: HashBuilder)
        ensures
            r@ == (None::<Seq<u8>>, None::<Seq<u8>>, None::<HashAlgorithm>),
    {
        HashBuilder { hash: None, salt: None, algorithm: None }
    }

    /// Sets the derived bytes.
    pub fn hash(self, hash: Vec<u8>) -> (r: HashBuilder)
        ensures
            r@ == (Some(hash@), self@.1, self@.2),
    {
        HashBuilder { hash: Some(hash), ..self }
    }

    /// Sets the salt.
    pub fn salt(self, salt: Salt) -> (r: HashBuilder)
        ensures
            r@ == (self@.0, Some(salt@), self@.2),
    {
        HashBuilder { salt: Some(salt), ..self }
    }

    /// Sets the algorithm.
    pub fn algorithm(self, algorithm: HashAlgorithm) -> (r: HashBuilder)
        ensures
            r@ == (self@.0, self@.1, Some(algorithm)),
    {
        HashBuilder { algorithm: Some(algorithm), ..self }
    }

    /// The entity, if all three fields are set.
    pub fn build(self) -> (r: Result<Hash, String>)
        ensures
            match self@ {
                (Some(h), Some(s), Some(a)) => r matches Ok(x) && x.hash@ == h && x.salt@ == s
                    && x.algorithm == a,
                _ => r matches Err(e) && e@ == MISSING_FIELDS@,
            },
    {
        match (self.hash, self.salt, self.algorithm) {
            (Some(hash), Some(salt), Some(algorithm)) => Ok(Hash { hash, salt, algorithm }),
            _ => Err(MISSING_FIELDS.to_owned()),
        }
    }
}

impl Default for HashBuilder {
    fn default() -> (r: HashBuilder)
        ensures
            r@ == (None::<Seq<u8>>, None::<Seq<u8>>, None::<HashAlgorithm>),
    {
        HashBuilder::new()
    }
}

impl Hash {
    /// Hashes `password` with Argon2i, using the salt bytes read as UTF-8,
    /// and assembles the entity through the builder.
    pub fn new_argon2i(password: &str, salt: Salt) -> (r: Result<Hash, String>)
        ensures
            !valid_utf8(salt@) ==> (r matches Err(e) && e@ == SALT_NOT_TEXT@),
            valid_utf8(salt@) ==> match argon2i_outcome(password@, decode_utf8(salt@)) {
                Ok(d) => r matches Ok(h) && h.hash@ == d && h.salt@ == salt@
                    && h.algorithm == HashAlgorithm::Argon2i,
                Err(m) => r matches Err(e) && e@ == m,
            },
    {
        let calculated = match utf8_text(salt.as_slice()) {
            None => return Err(SALT_NOT_TEXT.to_owned()),
            Some(salt_text) => Argon2i::hash_password(password, salt_text),
        };
        match calculated {
            Ok(h) => HashBuilder::new().hash(h).salt(salt).algorithm(HashAlgorithm::Argon2i).build(),
            Err(e) => Err(e),
        }
    }

    /// Hashes `password` with Bcrypt at work factor `cost`; the salt is the
    /// one Bcrypt embeds in its output, so the entity's salt is empty.
    pub fn new_bcrypt(password: &str, cost: u32) -> (r: Result<Hash, String>)
        ensures
            !(4 <= cost <= 31) ==> r is Err,
            r matches Ok(h) ==> h.algorithm == HashAlgorithm::Bcrypt && h.salt@.len() == 0
                && bcrypt_shaped(h.hash@, cost) && verdict(h, password@) == Ok::<bool, Seq<char>>(true),
            r matches Err(e) ==> BCRYPT_HASH_FAILED@.is_prefix_of(e@),
    {
        match bcrypt_hash(password, cost) {
            Ok(hashed) => {
                let bytes = hashed.as_str().as_bytes_vec();
                proof {
                    encode_utf8_valid_utf8(hashed@);
                    encode_utf8_decode_utf8(hashed@);
                }
                HashBuilder::new().hash(bytes).salt(Vec::new()).algorithm(HashAlgorithm::Bcrypt).build()
            },
            Err(e) => {
                let mut message = BCRYPT_HASH_FAILED.to_owned();
                let detail = bcrypt_error_text(&e);
                message.append(detail.as_str());
                Err(message)
            },
        }
    }

    /// Hashes `password` with the Scrypt preset, using the salt bytes read as
    /// UTF-8, and assembles the entity through the builder.
    pub fn new_scrypt(password: &str, salt: Salt) -> (r: Result<Hash, String>)
        ensures
            !valid_utf8(salt@) ==> (r matches Err(e) && e@ == SALT_NOT_TEXT@),
            valid_utf8(salt@) ==> match scrypt_outcome(password@, decode_utf8(salt@)) {
                Ok(d) => r matches Ok(h) && h.hash@ == d && h.salt@ == salt@
                    && h.algorithm == HashAlgorithm::Scrypt,
                Err(m) => r matches Err(e) && e@ == m,
            },
    {
        let calculated = match utf8_text(salt.as_slice()) {
            None => return Err(SALT_NOT_TEXT.to_owned()),
            Some(salt_text) => Scrypt::hash_password(password, salt_text),
        };
        match calculated {
            Ok(h) => HashBuilder::new().hash(h).salt(salt).algorithm(HashAlgorithm::Scrypt).build(),
            Err(e) => Err(e),
        }
    }

    /// The algorithm named by the second `$`-separated segment of `hash_str`.
    pub fn parse_algorithm(hash_str: &str) -> (r: Result<HashAlgorithm, String>)
        ensures
            match algorithm_of_text(hash_str@) {
                Ok(a) => r == Ok::<HashAlgorithm, String>(a),
                Err(m) => r matches Err(e) && e@ == m,
            },
    {
        let chars = chars_of(hash_str);
        let parts = split_dollar(&chars);
        if parts.len() < 2 {
            return Err(INVALID_HASH_STRING.to_owned());
        }
        assert(parts@[1]@ == split_on(hash_str@, '$')[1]);
        match HashAlgorithm::from_chars(&parts[1]) {
            Some(a) => Ok(a),
            None => {
                let mut message = "Unsupported hash algorithm: ".to_owned();
                let name = string_of(&parts[1]);
                message.append(name.as_str());
                Err(message)
            },
        }
    }

    /// Decodes the extended form `$<algorithm>$<version>$<costs>$<salt>$<base64 hash>`.
    /// The salt keeps the four middle segments with their `$` signs, so that
    /// rendering the entity again reproduces the parameter string.
    pub fn from_string(hash_str: &str) -> (r: Result<Hash, String>)
        ensures
            match decoded_fields(hash_str@) {
                Ok((a, salt_text, b)) => r matches Ok(h) && h.algorithm == a
                    && h.salt@ == encode_utf8(salt_text) && h.hash@ == b,
                Err(m) => r matches Err(e) && e@ == m,
            },
    {
        let chars = chars_of(hash_str);
        let parts = split_dollar(&chars);
        if parts.len() < 6 {
            return Err(INVALID_HASH_STRING.to_owned());
        }
        let algorithm = match Self::parse_algorithm(hash_str) {
            Ok(a) => a,
            Err(e) => return Err(e),
        };
        if parts.len() != 6 {
            return Err(INVALID_HASH_STRING.to_owned());
        }
        let ghost pv = split_on(hash_str@, '$');
        assert(forall|i: int| 0 <= i < 6 ==> #[trigger] parts@[i]@ == pv[i]);
        let mut salt_chars: Vec<char> = Vec::new();
        let mut k: usize = 1;
        while k < 5
            invariant
                1 <= k <= 5,
                parts@.len() == 6,
                pv.len() == 6,
                forall|i: int| 0 <= i < 6 ==> #[trigger] parts@[i]@ == pv[i],
                salt_chars@ == join_on(seq![Seq::<char>::empty()] + pv.subrange(1, k as int), '$'),
            decreases 5 - k,
        {
            let ghost before = salt_chars@;
            salt_chars.push('$');
            let piece = &parts[k];
            let mut j: usize = 0;
            while j < piece.len()
                invariant
                    j <= piece@.len(),
                    salt_chars@ == before + seq!['$'] + piece@.take(j as int),
                decreases piece@.len() - j,
            {
                salt_chars.push(piece[j]);
                assert(piece@.take(j as int + 1) =~= piece@.take(j as int).push(piece@[j as int]));
                j = j + 1;
            }
            assert(piece@.take(piece@.len() as int) =~= piece@);
            let ghost next = seq![Seq::<char>::empty()] + pv.subrange(1, k as int + 1);
            assert(next.drop_last() =~= seq![Seq::<char>::empty()] + pv.subrange(1, k as int));
            assert(next.last() == pv[k as int]);
            k = k + 1;
        }
        proof {
            let full = seq![Seq::<char>::empty()] + pv.subrange(1, 5);
            let upto4 = full.drop_last();
            let upto3 = upto4.drop_last();
            let upto2 = upto3.drop_last();
            let upto1 = upto2.drop_last();
            assert(upto1 =~= seq![Seq::<char>::empty()]);
            assert(join_on(upto1, '$') == Seq::<char>::empty());
            assert(upto2.last() == pv[1] && upto3.last() == pv[2] && upto4.last() == pv[3]
                && full.last() == pv[4]);
            assert(join_on(upto2, '$') == join_on(upto1, '$') + seq!['$'] + pv[1]);
            assert(join_on(upto3, '$') == join_on(upto2, '$') + seq!['$'] + pv[2]);
            assert(join_on(upto4, '$') == join_on(upto3, '$') + seq!['$'] + pv[3]);
            assert(join_on(full, '$') == join_on(upto4, '$') + seq!['$'] + pv[4]);
            assert(join_on(full, '$') =~= parameter_text(pv));
        }
        let salt_string = string_of(&salt_chars);
        let salt = salt_string.as_str().as_bytes_vec();
        let encoded = string_of(&parts[5]);
        match base64_decode(encoded.as_str()) {
            Ok(hash) => Ok(Hash { salt, hash, algorithm }),
            Err(_) => {
                let mut message = "Failed to decode base64: ".to_owned();
                message.append(encoded.as_str());
                Err(message)
            },
        }
    }

    /// The simple colon form: the salt as text (invalid UTF-8 replaced), a
    /// colon, and the hash in lowercase hexadecimal. It does not record the
    /// algorithm.
    pub fn to_string_representation(&self) -> (r: String)
        ensures
            r@ == simple_text(*self),
    {
        let mut r = utf8_lossy(self.salt.as_slice());
        r.append(":");
        let hex = hex_text(&self.hash);
        r.append(hex.as_str());
        r
    }

    /// The extended form: the salt as text (invalid UTF-8 replaced), `$`, and
    /// the hash in Base64. For an entity decoded by `from_string`, whose salt
    /// holds the leading segments, this is the canonical string again.
    pub fn to_string_extended(&self) -> (r: String)
        requires
            base64_len(self.hash@.len()) <= usize::MAX,
        ensures
            renders_extended(*self, r@),
    {
        let mut r = utf8_lossy(self.salt.as_slice());
        r.append("$");
        let encoded = base64_encode(self.hash.as_slice());
        r.append(encoded.as_str());
        proof {
            assert forall|i: int| 0 <= i < encoded@.len() implies encoded@[i] != '$' by {
                assert(crate::encoding::is_base64_char(encoded@[i]));
            }
        }
        r
    }

    /// `Hash { hash: [..] }` with the hash bytes in decimal.
    pub fn to_string(&self) -> (r: String)
        ensures
            r@ == display_text(*self),
    {
        let mut r = "Hash { hash: [".to_owned();
        let list = decimal_text(&self.hash);
        r.append(list.as_str());
        r.append("] }");
        r
    }

    /// Checks `password` against this entity: rehash with the stored salt and
    /// compare (Argon2i, Scrypt), or let Bcrypt check its stored string. A
    /// wrong password gives `Ok(false)`; errors are for unusable entities.
    pub fn verify(&self, password: &str) -> (r: Result<bool, &'static str>)
        ensures
            match verdict(*self, password@) {
                Ok(b) => r == Ok::<bool, &'static str>(b),
                Err(m) => r matches Err(e) && e@ == m,
            },
    {
        let salt = match utf8_text(self.salt.as_slice()) {
            Some(s) => s,
            None => return Err(SALT_NOT_TEXT),
        };
        match self.algorithm {
            HashAlgorithm::Argon2i => match Argon2i::hash_password(password, salt) {
                Ok(calculated) => Ok(bytes_equal(&calculated, &self.hash)),
                Err(_) => Err(ARGON2I_CHECK_FAILED),
            },
            HashAlgorithm::Bcrypt => {
                let stored = match utf8_text(self.hash.as_slice()) {
                    Some(t) => t,
                    None => return Err(HASH_NOT_TEXT),
                };
                match bcrypt_verify(password, stored) {
                    Ok(b) => Ok(b),
                    Err(_) => Err(BCRYPT_CHECK_FAILED),
                }
            },
            HashAlgorithm::Scrypt => match Scrypt::hash_password(password, salt) {
                Ok(calculated) => Ok(bytes_equal(&calculated, &self.hash)),
                Err(_) => Err(SCRYPT_CHECK_FAILED),
            },
        }
    }
}

/// The characters a random Argon2i salt is drawn from.
pub const ALPHANUMERIC: &'static str =
    "abcdefghijklmnopqrstuvwxyzABCDEFGHIJKLMNOPQRSTUVWXYZ0123456789";

/// Whether `c` is one of the characters random strings are drawn from.
pub open spec fn is_alphanumeric(c: char) -> bool {
    ALPHANUMERIC@.contains(c)
}

/// The characters of [`ALPHANUMERIC`] at the given indices, in order.
pub open spec fn alphanumeric_at(idx: Seq<u32>) -> Seq<char> {
    Seq::new(idx.len(), |k: int| ALPHANUMERIC@[idx[k] as int])
}

/// Whether `s` is a salt that `generate_salt` may return for algorithm `a`:
/// sixteen alphanumeric characters for Argon2i, the Base64 text of 16
/// random bytes for Bcrypt, of 32 for Scrypt, which decodes back to them.
pub open spec fn salt_for(a: HashAlgorithm, s: Seq<char>) -> bool {
    match a {
        HashAlgorithm::Argon2i => s.len() == 16 && forall|i: int|
            0 <= i < s.len() ==> is_alphanumeric(#[trigger] s[i]),
        HashAlgorithm::Bcrypt => s.len() == 24 && exists|b: Seq<u8>|
            b.len() == 16 && s == #[trigger] base64_of(b) && base64_decoded(s) == Some(b),
        HashAlgorithm::Scrypt => s.len() == 44 && exists|b: Seq<u8>|
            b.len() == 32 && s == #[trigger] base64_of(b) && base64_decoded(s) == Some(b),
    }
}

impl Hash {
    /// The text whose `k`-th character is the alphabet character at `idx[k]`.
    pub fn alphanumeric_text(idx: &Vec<u32>) -> (r: String)
        requires
            forall|k: int| 0 <= k < idx@.len() ==> idx@[k] < 62,
        ensures
            r@ == alphanumeric_at(idx@),
            forall|i: int| 0 <= i < r@.len() ==> is_alphanumeric(#[trigger] r@[i]),
    {
        proof {
            reveal_strlit("abcdefghijklmnopqrstuvwxyzABCDEFGHIJKLMNOPQRSTUVWXYZ0123456789");
        }
        let mut r = String::new();
        let mut i: usize = 0;
        while i < idx.len()
            invariant
                i <= idx@.len(),
                ALPHANUMERIC@.len() == 62,
                forall|k: int| 0 <= k < idx@.len() ==> idx@[k] < 62,
                r@ == alphanumeric_at(idx@.take(i as int)),
            decreases idx@.len() - i,
        {
            let c = ALPHANUMERIC.get_char(idx[i] as usize);
            push_char(&mut r, c);
            assert(r@ =~= alphanumeric_at(idx@.take(i as int + 1)));
            i = i + 1;
        }
        assert(idx@.take(idx@.len() as int) =~= idx@);
        assert forall|i: int| 0 <= i < r@.len() implies is_alphanumeric(#[trigger] r@[i]) by {
            assert(r@[i] == ALPHANUMERIC@[idx@[i] as int]);
        }
        r
    }

    /// `len` characters drawn uniformly from [`ALPHANUMERIC`].
    pub fn generate_random_string(len: usize) -> (r: String)
        ensures
            r@.len() == len,
            forall|i: int| 0 <= i < r@.len() ==> is_alphanumeric(#[trigger] r@[i]),
    {
        let mut rng = vrd::Random::new();
        let mut idx: Vec<u32> = Vec::new();
        let mut i: usize = 0;
        while i < len
            invariant
                i <= len,
                idx@.len() == i,
                forall|k: int| 0 <= k < idx@.len() ==> idx@[k] < 62,
            decreases len - i,
        {
            let k = rng.random_range(0, 62);
            idx.push(k);
            i = i + 1;
        }
        Self::alphanumeric_text(&idx)
    }

    /// The salt text for drawn bytes: their standard Base64 encoding, which
    /// decodes back to them.
    pub fn encode_salt(bytes: &Vec<u8>) -> (r: String)
        requires
            base64_len(bytes@.len()) <= usize::MAX,
        ensures
            r@ == base64_of(bytes@),
            r@.len() == base64_len(bytes@.len()),
            base64_decoded(r@) == Some(bytes@),
    {
        base64_encode(bytes.as_slice())
    }

    /// A fresh random salt suited to the algorithm named `algo`.
    pub fn generate_salt(algo: &str) -> (r: Result<String, String>)
        ensures
            match algorithm_named(algo@) {
                None => r matches Err(e) && e@ == unsupported_message(algo@),
                Some(a) => r matches Ok(s) && salt_for(a, s@),
            },
    {
        match HashAlgorithm::from_identifier(algo) {
            Some(HashAlgorithm::Argon2i) => Ok(Self::generate_random_string(16)),
            Some(HashAlgorithm::Bcrypt) => {
                let mut rng = vrd::Random::new();
                let bytes = rng.bytes(16);
                let s = Self::encode_salt(&bytes);
                assert(s@ == base64_of(bytes@));
                Ok(s)
            },
            Some(HashAlgorithm::Scrypt) => {
                let mut rng = vrd::Random::new();
                let bytes = rng.bytes(32);
                let s = Self::encode_salt(&bytes);
                assert(s@ == base64_of(bytes@));
                Ok(s)
            },
            None => Err(unsupported(algo)),
        }
    }
}

/// Argon2i and Scrypt are deterministic: two outcomes of the same provider
/// on the same password and salt are equal.
pub proof fn lemma_hashing_is_deterministic(
    a: HashAlgorithm,
    password: Seq<char>,
    salt: Seq<char>,
    first: Result<Seq<u8>, Seq<char>>,
    second: Result<Seq<u8>, Seq<char>>,
)
    requires
        a != HashAlgorithm::Bcrypt,
        produces(a, password, salt, first),
        produces(a, password, salt, second),
    ensures
        first == second,
{
}

/// An entity built by `new` accepts the password it was built from.
pub proof fn lemma_verify_accepts_original(
    h: Hash,
    password: Seq<char>,
    salt: Seq<char>,
    algo: Seq<char>,
)
    requires
        built_by_new(h, password, salt, algo),
    ensures
        verdict(h, password) == Ok::<bool, Seq<char>>(true),
{
    encode_utf8_valid_utf8(salt);
    encode_utf8_decode_utf8(salt);
}

/// Decoding what `to_string_extended` renders gives back the algorithm, the
/// hash bytes and the salt bytes, for an entity whose salt is a parameter
/// string `$<identifier>$<upto3>$<upto2>$<upto1>` naming its own algorithm.
pub proof fn lemma_extended_round_trip(h: Hash, s: Seq<char>)
    requires
        renders_extended(h, s),
        valid_utf8(h.salt@),
        split_on(decode_utf8(h.salt@), '$').len() == 5,
        split_on(decode_utf8(h.salt@), '$')[0].len() == 0,
        split_on(decode_utf8(h.salt@), '$')[1] == identifier_of(h.algorithm),
    ensures
        decoded_fields(s) matches Ok((a, salt_text, b)) && a == h.algorithm
            && encode_utf8(salt_text) == h.salt@ && b == h.hash@,
{
    let text = decode_utf8(h.salt@);
    let encoded = base64_of(h.hash@);
    let parts = split_on(text, '$');
    reveal_strlit("$");
    assert(s =~= text + seq!['$'] + encoded);
    lemma_split_on_append_piece(text, encoded, '$');
    let all = split_on(s, '$');
    assert(all == parts.push(encoded));
    lemma_identifier_round_trip(h.algorithm);
    lemma_join_split(text, '$');
    let upto4 = parts.drop_last();
    let upto3 = upto4.drop_last();
    let upto2 = upto3.drop_last();
    let upto1 = upto2.drop_last();
    assert(upto1 =~= seq![parts[0]]);
    assert(join_on(upto2, '$') == join_on(upto1, '$') + seq!['$'] + parts[1]);
    assert(join_on(upto3, '$') == join_on(upto2, '$') + seq!['$'] + parts[2]);
    assert(join_on(upto4, '$') == join_on(upto3, '$') + seq!['$'] + parts[3]);
    assert(join_on(parts, '$') == join_on(upto4, '$') + seq!['$'] + parts[4]);
    assert(parts[0] =~= Seq::<char>::empty());
    assert(parameter_text(all) =~= join_on(parts, '$'));
    decode_utf8_encode_utf8(h.salt@);
}

} // verus!
