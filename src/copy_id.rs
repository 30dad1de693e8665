//! The decisions of the `copy-id` command, which appends a public key to a
//! remote `authorized_keys` file: which key, which account, and how the file
//! is to change. The remote session itself is the caller's.

use data_encoding::BASE64;
use vstd::prelude::*;
use vstd::string::{StringExecFns, StringSliceAdditionalSpecFns};
use vstd::utf8::{encode_utf8, encode_utf8_decode_utf8};

use crate::config::Config;
use crate::utils::{contains_bytes, str_contains};

verus! {

/// The base64 character for a six-bit value.
pub open spec fn base64_char(v: int) -> char {
    seq![
        'A', 'B', 'C', 'D', 'E', 'F', 'G', 'H', 'I', 'J', 'K', 'L', 'M',
        'N', 'O', 'P', 'Q', 'R', 'S', 'T', 'U', 'V', 'W', 'X', 'Y', 'Z',
        'a', 'b', 'c', 'd', 'e', 'f', 'g', 'h', 'i', 'j', 'k', 'l', 'm',
        'n', 'o', 'p', 'q', 'r', 's', 't', 'u', 'v', 'w', 'x', 'y', 'z',
        '0', '1', '2', '3', '4', '5', '6', '7', '8', '9', '+', '/',
    ][v]
}

/// Standard base64 of `data`: each three bytes give four characters, and a
/// last group of one or two bytes is padded with `=`.
pub open spec fn base64_of(data: Seq<u8>) -> Seq<char>
    decreases data.len(),
{
    if data.len() == 0 {
        Seq::empty()
    } else if data.len() == 1 {
        let a = data[0] as int;
        seq![base64_char(a / 4), base64_char((a % 4) * 16), '=', '=']
    } else if data.len() == 2 {
        let a = data[0] as int;
        let b = data[1] as int;
        seq![base64_char(a / 4), base64_char((a % 4) * 16 + b / 16), base64_char((b % 16) * 4), '=']
    } else {
        let a = data[0] as int;
        let b = data[1] as int;
        let c = data[2] as int;
        seq![
            base64_char(a / 4),
            base64_char((a % 4) * 16 + b / 16),
            base64_char((b % 16) * 4 + c / 64),
            base64_char(c % 64),
        ] + base64_of(data.skip(3))
    }
}

/// Relies on data_encoding's `BASE64.encode`: standard padded base64; it
/// asserts that the input is at most `usize::MAX / 512` bytes long.
#[verifier::external_body]
fn base64_encode(data: &[u8]) -> (r: String)
    requires
        data@.len() <= usize::MAX / 512,
    ensures
        r@ == base64_of(data@),
{
    BASE64.encode(data)
}

/// The base64 text of a public key blob, or `None` when the blob is too long
/// to encode.
pub fn blob_base64(blob: &[u8]) -> (r: Option<String>)
    ensures
        blob@.len() <= usize::MAX / 512 ==> (r matches Some(s) && s@ == base64_of(blob@)),
        blob@.len() > usize::MAX / 512 ==> r is None,
{
    if blob.len() <= usize::MAX / 512 {
        Some(base64_encode(blob))
    } else {
        None
    }
}

/// The `authorized_keys` line for a key: type, base64 blob and name, each
/// separated by a space, ending with a newline.
pub open spec fn authorized_key_line_of(
    key_type: Seq<char>,
    key_base64: Seq<char>,
    name: Seq<char>,
) -> Seq<char> {
    key_type + seq![' '] + key_base64 + seq![' '] + name + seq!['\n']
}

/// The `authorized_keys` line for a key.
pub fn authorized_key_line(key_type: &str, key_base64: &str, name: &str) -> (r: String)
    ensures
        r@ == authorized_key_line_of(key_type@, key_base64@, name@),
{
    proof {
        reveal_strlit(" ");
        reveal_strlit("\n");
    }
    let mut line = String::from_str(key_type);
    line.append(" ");
    line.append(key_base64);
    line.append(" ");
    line.append(name);
    line.append("\n");
    assert(line@ =~= authorized_key_line_of(key_type@, key_base64@, name@));
    line
}

/// How the `authorized_keys` file is to change.
#[derive(Clone, Copy, Debug, PartialEq, Eq, Structural)]
pub enum AuthorizedKeysEdit {
    /// The key is there already: leave the file as it is.
    AlreadyPresent,
    /// Append the key's line, after a newline when `newline_first`.
    Append { newline_first: bool },
}

/// Plans the edit of an `authorized_keys` file that holds `existing`: the key
/// is appended unless its base64 text occurs in the file, after a newline when
/// the file is not empty and does not end with one.
pub fn plan_authorized_keys_edit(existing: &str, key_base64: &str) -> (r: AuthorizedKeysEdit)
    ensures
        contains_bytes(existing.spec_bytes(), key_base64.spec_bytes()) ==> r
            == AuthorizedKeysEdit::AlreadyPresent,
        !contains_bytes(existing.spec_bytes(), key_base64.spec_bytes()) ==> r
            == (AuthorizedKeysEdit::Append {
            newline_first: existing.spec_bytes().len() > 0 && existing.spec_bytes().last() != 10u8,
        }),
{
    if str_contains(existing, key_base64) {
        return AuthorizedKeysEdit::AlreadyPresent;
    }
    let bytes = existing.as_bytes();
    let newline_first = bytes.len() > 0 && bytes[bytes.len() - 1] != 10u8;
    AuthorizedKeysEdit::Append { newline_first }
}

/// `b` holds an `@` at `i` and nowhere else.
pub open spec fn is_only_at(b: Seq<u8>, i: int) -> bool {
    &&& 0 <= i < b.len()
    &&& b[i] == 0x40u8
    &&& forall|j: int| 0 <= j < b.len() && j != i ==> b[j] != 0x40u8
}

/// The position of the `@` in `user@host`, when there is exactly one.
pub fn user_host_split(target: &str) -> (r: Option<usize>)
    ensures
        r matches Some(i) ==> is_only_at(target.spec_bytes(), i as int),
        r is None ==> !(exists|i: int| is_only_at(target.spec_bytes(), i)),
{
    let bytes = target.as_bytes();
    let mut found: Option<usize> = None;
    let mut i: usize = 0;
    while i < bytes.len()
        invariant
            bytes@ == target.spec_bytes(),
            i <= bytes@.len(),
            found matches Some(k) ==> (k < i && bytes@[k as int] == 0x40u8 && forall|j: int|
                0 <= j < i && j != k ==> bytes@[j] != 0x40u8),
            found is None ==> forall|j: int| 0 <= j < i ==> bytes@[j] != 0x40u8,
        decreases bytes@.len() - i,
    {
        if bytes[i] == 0x40u8 {
            if found.is_some() {
                return None;
            }
            found = Some(i);
        }
        i = i + 1;
    }
    found
}

impl Config {
    /// The position of the first key pair named `name`.
    pub fn find_by_name(&self, name: &str) -> (r: Option<usize>)
        ensures
            r matches Some(i) ==> (i < self@.len() && self@[i as int].name == name@ && forall|j: int|
                0 <= j < i ==> self@[j].name != name@),
            r is None ==> forall|j: int| 0 <= j < self@.len() ==> self@[j].name != name@,
    {
        let mut i: usize = 0;
        while i < self.keys.len()
            invariant
                i <= self@.len(),
                forall|j: int| 0 <= j < i ==> self@[j].name != name@,
            decreases self@.len() - i,
        {
            let key_name = self.keys[i].name();
            if str_equal(key_name, name) {
                return Some(i);
            }
            i = i + 1;
        }
        None
    }
}

/// Whether two texts are equal, compared by their bytes.
fn str_equal(a: &str, b: &str) -> (r: bool)
    ensures
        r == (a@ == b@),
{
    let x = a.as_bytes();
    let y = b.as_bytes();
    proof {
        encode_utf8_decode_utf8(a@);
        encode_utf8_decode_utf8(b@);
    }
    if x.len() != y.len() {
        return false;
    }
    let mut i: usize = 0;
    while i < x.len()
        invariant
            x@ == encode_utf8(a@),
            y@ == encode_utf8(b@),
            x@.len() == y@.len(),
            i <= x@.len(),
            forall|j: int| 0 <= j < i ==> x@[j] == y@[j],
        decreases x@.len() - i,
    {
        if x[i] != y[i] {
            return false;
        }
        i = i + 1;
    }
    assert(x@ =~= y@);
    true
}

} // verus!
