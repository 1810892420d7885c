//! Database connection settings: data directory resolution, connection
//! retry configuration, and encoding of connection parameters.
use vstd::prelude::*;
use vstd::string::StringExecFns;
use vstd::string::StringSliceAdditionalSpecFns;

use crate::db::retry::{backoff_delay_ms, spec_backoff_ms};
use crate::text::push_char;
use crate::util::{join_path, spec_join_path};

verus! {

/// Database directory name inside the data dir.
pub const DB_FILENAME: &'static str = "mercury_cortex_global_knowledge.db";

/// Why the data directory could not be resolved.
#[derive(Debug, Clone, Copy, PartialEq, Eq, Structural)]
pub enum DataDirError {
    /// `MERCURY_CORTEX_DATA_DIR` is set but empty.
    EmptyOverride,
    /// No override, and the home directory could not be resolved.
    NoHome,
}

/// The data directory: the `MERCURY_CORTEX_DATA_DIR` override verbatim when
/// set and non-empty, an error when it is set but empty, otherwise
/// `<home>/.mercury/cortex`, and an error when there is no home directory.
pub open spec fn spec_data_dir(env_override: Option<Seq<char>>, home: Option<Seq<char>>) -> Result<
    Seq<char>,
    DataDirError,
> {
    match env_override {
        Some(d) => if d.len() == 0 {
            Err(DataDirError::EmptyOverride)
        } else {
            Ok(d)
        },
        None => match home {
            Some(h) => Ok(spec_join_path(spec_join_path(h, ".mercury"@), "cortex"@)),
            None => Err(DataDirError::NoHome),
        },
    }
}

/// Resolve the data directory from the value of `MERCURY_CORTEX_DATA_DIR`
/// (if set) and the user's home directory (if it can be resolved).
pub fn resolve_data_dir(env_override: Option<String>, home: Option<String>) -> (r: Result<
    String,
    DataDirError,
>)
    ensures
        match (r, spec_data_dir(crate::runtime::status::opt_view(env_override), crate::runtime::status::opt_view(home))) {
            (Ok(d), Ok(e)) => d@ == e,
            (Err(a), Err(b)) => a == b,
            _ => false,
        },
{
    match env_override {
        Some(d) => {
            if d.as_str().is_empty() {
                Err(DataDirError::EmptyOverride)
            } else {
                Ok(d)
            }
        },
        None => match home {
            Some(h) => {
                let m = join_path(h.as_str(), ".mercury");
                Ok(join_path(m.as_str(), "cortex"))
            },
            None => Err(DataDirError::NoHome),
        },
    }
}

/// Retry configuration for database connections with exponential backoff.
#[derive(Debug, Clone, Copy)]
pub struct RetryConfig {
    pub max_retries: u32,
    pub base_delay_ms: u64,
}

impl Default for RetryConfig {
    fn default() -> (c: Self)
        ensures
            c.max_retries == 3,
            c.base_delay_ms == 1000,
    {
        RetryConfig { max_retries: 3, base_delay_ms: 1000 }
    }
}

impl RetryConfig {
    /// The delay in milliseconds before connection attempt `attempt`
    /// (counted from 0): none before the first, then `base_delay * 2^(attempt - 1)`.
    pub fn delay_before_attempt(&self, attempt: u32) -> (d: u64)
        requires
            attempt <= self.max_retries,
            attempt <= 32,
            spec_backoff_ms(self.base_delay_ms as nat, attempt as nat) <= u64::MAX,
        ensures
            d == spec_backoff_ms(self.base_delay_ms as nat, attempt as nat),
    {
        backoff_delay_ms(self.base_delay_ms, attempt)
    }
}

/// RFC 3986 unreserved bytes: `A-Z a-z 0-9 - . _ ~`.
pub open spec fn is_unreserved(b: u8) -> bool {
    (0x41 <= b <= 0x5a) || (0x61 <= b <= 0x7a) || (0x30 <= b <= 0x39) || b == 0x2d || b == 0x2e
        || b == 0x5f || b == 0x7e
}

/// The uppercase hexadecimal digit for `d < 16`.
pub open spec fn hex_upper(d: u8) -> char {
    if d < 10 { ((d + 0x30) as u8) as char } else { ((d - 10 + 0x41) as u8) as char }
}

/// The encoding of one byte: itself when unreserved, `%HH` otherwise.
pub open spec fn encode_byte(b: u8) -> Seq<char> {
    if is_unreserved(b) {
        seq![b as char]
    } else {
        seq!['%', hex_upper(b / 16), hex_upper(b % 16)]
    }
}

/// Percent-encoding of a byte string.
pub open spec fn spec_percent_encode(bytes: Seq<u8>) -> Seq<char>
    decreases bytes.len(),
{
    if bytes.len() == 0 {
        Seq::empty()
    } else {
        spec_percent_encode(bytes.drop_last()) + encode_byte(bytes.last())
    }
}

/// A character that may appear in percent-encoded text: an unreserved
/// character or `%`.
pub open spec fn is_encoded_char(c: char) -> bool {
    (c as u32) < 128 && (is_unreserved((c as u32) as u8) || c == '%')
}

/// Percent-encoding can never corrupt the parse of the connection string
/// it is put in: every character of an encoding is an unreserved
/// character or `%`.
pub proof fn lemma_percent_encode_safe(bytes: Seq<u8>)
    ensures
        forall|i: int|
            0 <= i < spec_percent_encode(bytes).len() ==> is_encoded_char(
                #[trigger] spec_percent_encode(bytes)[i],
            ),
    decreases bytes.len(),
{
    if bytes.len() > 0 {
        let rest = bytes.drop_last();
        lemma_percent_encode_safe(rest);
        let b = bytes.last();
        let e = encode_byte(b);
        assert forall|k: int| 0 <= k < e.len() implies is_encoded_char(#[trigger] e[k]) by {
            if is_unreserved(b) {
                assert(e[k] == b as char);
                assert((b as char) as u32 == b as u32);
            } else {
                let hi = b / 16;
                let lo = b % 16;
                assert(hi < 16 && lo < 16);
                if k == 1 {
                    assert(e[k] == hex_upper(hi));
                } else if k == 2 {
                    assert(e[k] == hex_upper(lo));
                }
            }
        }
        let whole = spec_percent_encode(bytes);
        let prefix = spec_percent_encode(rest);
        assert(whole == prefix + e);
        assert forall|i: int| 0 <= i < whole.len() implies is_encoded_char(#[trigger] whole[i]) by {
            if i < prefix.len() {
                assert(whole[i] == prefix[i]);
            } else {
                assert(whole[i] == e[i - prefix.len()]);
            }
        }
    }
}

/// An uppercase hexadecimal digit (`0-9`, `A-F`).
pub open spec fn is_upper_hex(c: char) -> bool {
    ('0' <= c && c <= '9') || ('A' <= c && c <= 'F')
}

/// Every `%` of `s` starts a `%HH` triple of two uppercase hexadecimal
/// digits, and every other character is unreserved or one of those digits.
pub open spec fn well_encoded(s: Seq<char>) -> bool {
    &&& forall|i: int|
        0 <= i < s.len() && #[trigger] s[i] == '%' ==> i + 2 < s.len() && is_upper_hex(s[i + 1])
            && is_upper_hex(s[i + 2])
    &&& forall|i: int| 0 <= i < s.len() ==> is_encoded_char(#[trigger] s[i])
}

/// Every `%` of a percent-encoding starts a triple `%HH` of two uppercase
/// hexadecimal digits; every other character is unreserved.
pub proof fn lemma_percent_encode_triples(bytes: Seq<u8>)
    ensures
        well_encoded(spec_percent_encode(bytes)),
    decreases bytes.len(),
{
    lemma_percent_encode_safe(bytes);
    if bytes.len() > 0 {
        let rest = bytes.drop_last();
        lemma_percent_encode_triples(rest);
        let b = bytes.last();
        let e = encode_byte(b);
        let p = spec_percent_encode(rest);
        let w = spec_percent_encode(bytes);
        assert(w == p + e);
        if !is_unreserved(b) {
            assert(is_upper_hex(hex_upper(b / 16)));
            assert(is_upper_hex(hex_upper(b % 16)));
        } else {
            assert(e[0] == b as char);
            assert(b as char != '%');
        }
        assert forall|i: int| 0 <= i < w.len() && #[trigger] w[i] == '%' implies i + 2 < w.len()
            && is_upper_hex(w[i + 1]) && is_upper_hex(w[i + 2]) by {
            if i < p.len() {
                assert(w[i] == p[i]);
                assert(p[i] == '%');
                assert(w[i + 1] == p[i + 1] && w[i + 2] == p[i + 2]);
            } else {
                assert(w[i] == e[i - p.len()]);
                if !is_unreserved(b) {
                    assert(e[1] == hex_upper(b / 16) && e[2] == hex_upper(b % 16));
                    assert(is_upper_hex(e[1]) && is_upper_hex(e[2]));
                    assert(e[1] != '%' && e[2] != '%');
                    assert(i == p.len());
                    assert(w[i + 1] == e[1] && w[i + 2] == e[2]);
                }
            }
        }
    }
}

/// The value of a hexadecimal digit (`0-9`, `A-F`).
pub open spec fn hex_value(c: char) -> int {
    if '0' <= c && c <= '9' {
        c as int - 0x30
    } else {
        c as int - 0x41 + 10
    }
}

/// Percent-decoding: `%HH` is the byte `HH`, any other character the byte
/// of its code.
pub open spec fn spec_percent_decode(s: Seq<char>) -> Seq<u8>
    decreases s.len(),
{
    if s.len() == 0 {
        Seq::empty()
    } else if s[0] == '%' && s.len() >= 3 {
        seq![(hex_value(s[1]) * 16 + hex_value(s[2])) as u8] + spec_percent_decode(s.skip(3))
    } else {
        seq![(s[0] as u32) as u8] + spec_percent_decode(s.skip(1))
    }
}

/// The length of an encoding: one character per unreserved byte, three
/// for every other byte.
pub open spec fn encoded_len(bytes: Seq<u8>) -> nat
    decreases bytes.len(),
{
    if bytes.len() == 0 {
        0
    } else {
        encoded_len(bytes.drop_last()) + if is_unreserved(bytes.last()) {
            1nat
        } else {
            3nat
        }
    }
}

proof fn lemma_encode_front(b: u8, rest: Seq<u8>)
    ensures
        spec_percent_encode(seq![b] + rest) == encode_byte(b) + spec_percent_encode(rest),
    decreases rest.len(),
{
    if rest.len() == 0 {
        assert(seq![b] + rest =~= seq![b]);
        assert(seq![b].drop_last() =~= Seq::<u8>::empty());
        assert(spec_percent_encode(seq![b]) == spec_percent_encode(seq![b].drop_last()) + encode_byte(
            b,
        ));
        assert(spec_percent_encode(rest) == Seq::<char>::empty());
        assert(encode_byte(b) + spec_percent_encode(rest) =~= encode_byte(b));
        assert(Seq::<char>::empty() + encode_byte(b) =~= encode_byte(b));
    } else {
        let r1 = rest.drop_last();
        lemma_encode_front(b, r1);
        assert((seq![b] + rest).drop_last() =~= seq![b] + r1);
        assert((seq![b] + rest).last() == rest.last());
        assert(spec_percent_encode(seq![b] + rest) == spec_percent_encode(seq![b] + r1) + encode_byte(
            rest.last(),
        ));
        assert(spec_percent_encode(rest) == spec_percent_encode(r1) + encode_byte(rest.last()));
        assert(encode_byte(b) + spec_percent_encode(r1) + encode_byte(rest.last()) =~= encode_byte(b)
            + spec_percent_encode(rest));
    }
}

proof fn lemma_hex_round_trip(d: u8)
    requires
        d < 16,
    ensures
        hex_value(hex_upper(d)) == d,
{
}

proof fn lemma_decode_byte(b: u8, t: Seq<char>)
    ensures
        spec_percent_decode(encode_byte(b) + t) == seq![b] + spec_percent_decode(t),
{
    let s = encode_byte(b) + t;
    if is_unreserved(b) {
        assert(s[0] == b as char);
        assert(s.skip(1) =~= t);
        assert(((b as char) as u32) as u8 == b);
    } else {
        let hi = b / 16;
        let lo = b % 16;
        lemma_hex_round_trip(hi);
        lemma_hex_round_trip(lo);
        assert(s[0] == '%' && s[1] == hex_upper(hi) && s[2] == hex_upper(lo));
        assert(s.skip(3) =~= t);
        assert((hi * 16 + lo) as u8 == b);
    }
}

/// Percent-encoding loses nothing: decoding an encoding gives the bytes
/// back. Its length is one character per unreserved byte and three per
/// other byte, and text of unreserved bytes only is left as it is.
pub proof fn lemma_percent_encode_round_trip(bytes: Seq<u8>)
    ensures
        spec_percent_decode(spec_percent_encode(bytes)) == bytes,
        spec_percent_encode(bytes).len() == encoded_len(bytes),
        (forall|i: int| 0 <= i < bytes.len() ==> is_unreserved(#[trigger] bytes[i]))
            ==> spec_percent_encode(bytes) == bytes.map_values(|b: u8| b as char),
    decreases bytes.len(),
{
    if bytes.len() == 0 {
        assert(spec_percent_decode(Seq::<char>::empty()) == Seq::<u8>::empty());
        assert(bytes.map_values(|b: u8| b as char) =~= Seq::<char>::empty());
    } else {
        let rest = bytes.skip(1);
        lemma_percent_encode_round_trip(rest);
        assert(bytes =~= seq![bytes[0]] + rest);
        lemma_encode_front(bytes[0], rest);
        lemma_decode_byte(bytes[0], spec_percent_encode(rest));
        assert(seq![bytes[0]] + rest =~= bytes);
        let init = bytes.drop_last();
        lemma_percent_encode_round_trip(init);
        if forall|i: int| 0 <= i < bytes.len() ==> is_unreserved(#[trigger] bytes[i]) {
            assert forall|i: int| 0 <= i < init.len() implies is_unreserved(#[trigger] init[i]) by {
                assert(init[i] == bytes[i]);
            }
            assert(is_unreserved(bytes[bytes.len() - 1]));
            assert(init.map_values(|b: u8| b as char).push(bytes.last() as char) =~= bytes.map_values(
                |b: u8| b as char,
            ));
        }
    }
}

fn hex_digit_upper(d: u8) -> (c: char)
    requires
        d < 16,
    ensures
        c == hex_upper(d),
{
    if d < 10 {
        (d + 0x30) as char
    } else {
        (d - 10 + 0x41) as char
    }
}

/// Percent-encode all bytes except RFC-3986 unreserved characters
/// (`A-Z a-z 0-9 - . _ ~`).
pub fn percent_encode(input: &str) -> (s: String)
    ensures
        s@ == spec_percent_encode(input.spec_bytes()),
{
    let bytes = input.as_bytes();
    let mut out = String::new();
    let mut i: usize = 0;
    while i < bytes.len()
        invariant
            i <= bytes@.len(),
            out@ == spec_percent_encode(bytes@.take(i as int)),
        decreases bytes@.len() - i,
    {
        let b = bytes[i];
        assert(bytes@.take(i + 1).drop_last() =~= bytes@.take(i as int));
        if (0x41 <= b && b <= 0x5a) || (0x61 <= b && b <= 0x7a) || (0x30 <= b && b <= 0x39) || b
            == 0x2d || b == 0x2e || b == 0x5f || b == 0x7e {
            push_char(&mut out, b as char);
        } else {
            push_char(&mut out, '%');
            push_char(&mut out, hex_digit_upper(b / 16));
            push_char(&mut out, hex_digit_upper(b % 16));
        }
        assert(out@ =~= spec_percent_encode(bytes@.take(i + 1)));
        i = i + 1;
    }
    assert(bytes@.take(bytes@.len() as int) =~= bytes@);
    out
}

/// The encryption key a connection uses: the key file's contents, trimmed,
/// when a key file is configured, readable and not blank; otherwise the
/// `MERCURY_DB_ENCRYPTION_KEY` value, if set.
pub open spec fn spec_encryption_key(
    file_contents: Option<Seq<char>>,
    env_key: Option<Seq<char>>,
) -> Option<Seq<char>> {
    match file_contents {
        Some(c) => if crate::text::trim_ws(c).len() > 0 {
            Some(crate::text::trim_ws(c))
        } else {
            env_key
        },
        None => env_key,
    }
}

/// Chooses the encryption key from the key file's contents (`None` when no
/// key file is configured or it cannot be read) and the key variable.
pub fn resolve_encryption_key(file_contents: Option<String>, env_key: Option<String>) -> (k: Option<
    String,
>)
    ensures
        crate::runtime::status::opt_view(k) == spec_encryption_key(
            crate::runtime::status::opt_view(file_contents),
            crate::runtime::status::opt_view(env_key),
        ),
{
    match file_contents {
        Some(c) => {
            let cs = crate::text::chars_of(c.as_str());
            let t = crate::text::trim_chars(cs.as_slice());
            if t.len() > 0 {
                Some(crate::text::string_from_chars(t.as_slice()))
            } else {
                env_key
            }
        },
        None => env_key,
    }
}

/// The address a connection opens: the database path alone, or, with a
/// non-empty encryption key, the path with `?encryption_key=` and the
/// percent-encoded key. (The pinned storage engine ignores the key: data is
/// stored unencrypted.)
pub fn connection_address(db_path: &str, key: Option<&str>) -> (a: String)
    ensures
        match key {
            Some(k) => if k@.len() > 0 {
                a@ == db_path@ + "?encryption_key="@ + spec_percent_encode(k.spec_bytes())
            } else {
                a@ == db_path@
            },
            None => a@ == db_path@,
        },
{
    match key {
        Some(k) => {
            if k.is_empty() {
                db_path.to_string()
            } else {
                let mut a = db_path.to_string();
                a.append("?encryption_key=");
                let enc = percent_encode(k);
                a.append(enc.as_str());
                a
            }
        },
        None => db_path.to_string(),
    }
}

} // verus!
