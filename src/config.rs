use vstd::prelude::*;
use crate::envelope::L_KEY;
use crate::error::SyncError;

verus! {

/// The task of a run.
#[derive(Debug, Clone, Copy, PartialEq, Eq, Structural)]
pub enum Goal {
    /// Encrypt and push everything, replacing what the remote held.
    BlindPush,
    /// Pull and decrypt everything into an empty working tree.
    BlindPull,
    /// Synchronise by modification times; the default after a blind push or pull.
    Update,
}

/// The value of a hexadecimal digit (either case), or `None`.
pub open spec fn hex_val(c: char) -> Option<nat> {
    if '0' <= c && c <= '9' {
        Some((c as nat - '0' as nat) as nat)
    } else if 'a' <= c && c <= 'f' {
        Some((c as nat - 'a' as nat + 10) as nat)
    } else if 'A' <= c && c <= 'F' {
        Some((c as nat - 'A' as nat + 10) as nat)
    } else {
        None
    }
}

/// `s` is exactly 64 hexadecimal digits.
pub open spec fn is_hex_key(s: Seq<char>) -> bool {
    s.len() == 2 * L_KEY && forall|i: int| 0 <= i < s.len() ==> (#[trigger] hex_val(s[i])) is Some
}

/// The byte that the digits `2i` and `2i + 1` of `s` spell.
pub open spec fn hex_byte(s: Seq<char>, i: int) -> u8 {
    (hex_val(s[2 * i])->0 * 16 + hex_val(s[2 * i + 1])->0) as u8
}

/// The 32 bytes that a 64-digit hex string spells.
pub open spec fn key_of_hex(s: Seq<char>) -> Seq<u8> {
    Seq::new(L_KEY as nat, |i: int| hex_byte(s, i))
}

/// The value of one hexadecimal digit.
pub fn hex_value(c: char) -> (r: Option<u8>)
    ensures
        r is Some <==> hex_val(c) is Some,
        r is Some ==> r->0 as nat == hex_val(c)->0,
{
    if '0' <= c && c <= '9' {
        Some((c as u32 - '0' as u32) as u8)
    } else if 'a' <= c && c <= 'f' {
        Some((c as u32 - 'a' as u32 + 10) as u8)
    } else if 'A' <= c && c <= 'F' {
        Some((c as u32 - 'A' as u32 + 10) as u8)
    } else {
        None
    }
}

/// The 32-byte key that a 64-digit hexadecimal string spells.
pub fn hex_to_key(s: &str) -> (r: Result<[u8; L_KEY], SyncError>)
    ensures
        r is Ok <==> is_hex_key(s@),
        r is Ok ==> r->Ok_0@ == key_of_hex(s@),
        r is Err ==> r->Err_0 == SyncError::BadKey,
{
    let n = s.unicode_len();
    if n != 2 * L_KEY {
        return Err(SyncError::BadKey);
    }
    let mut key: [u8; L_KEY] = [0u8; L_KEY];
    let mut i: usize = 0;
    while i < L_KEY
        invariant
            n == s@.len(),
            n == 2 * L_KEY,
            i <= L_KEY,
            key@.len() == L_KEY,
            forall|j: int| 0 <= j < 2 * i ==> (#[trigger] hex_val(s@[j])) is Some,
            forall|j: int| 0 <= j < i ==> key@[j] == hex_byte(s@, j),
        decreases L_KEY - i,
    {
        let hi = match hex_value(s.get_char(2 * i)) {
            Some(v) => v,
            None => return Err(SyncError::BadKey),
        };
        let lo = match hex_value(s.get_char(2 * i + 1)) {
            Some(v) => v,
            None => {
                assert(hex_val(s@[2 * i + 1]) is None);
                return Err(SyncError::BadKey);
            },
        };
        key[i] = hi * 16 + lo;
        assert(key@[i as int] == hex_byte(s@, i as int));
        i = i + 1;
    }
    assert(key@ =~= key_of_hex(s@));
    Ok(key)
}

/// The program and the argument of a transport command: the text before the
/// first space, and everything after it (empty when there is no space).
pub open spec fn split_spec(s: Seq<char>) -> (Seq<char>, Seq<char>) {
    if exists|i: int| 0 <= i < s.len() && s[i] == ' ' {
        let i = choose|i: int| 0 <= i < s.len() && s[i] == ' ' && forall|j: int| 0 <= j < i ==> s[j] != ' ';
        (s.subrange(0, i), s.subrange(i + 1, s.len() as int))
    } else {
        (s, Seq::empty())
    }
}

/// Splits a transport command on its first space into program and argument.
pub fn split_command(cmd: &str) -> (r: (String, String))
    ensures
        (r.0@, r.1@) == split_spec(cmd@),
{
    let n = cmd.unicode_len();
    let mut i: usize = 0;
    while i < n
        invariant
            n == cmd@.len(),
            i <= n,
            forall|j: int| 0 <= j < i ==> cmd@[j] != ' ',
        decreases n - i,
    {
        if cmd.get_char(i) == ' ' {
            let prog = cmd.substring_char(0, i).to_owned();
            let args = cmd.substring_char(i + 1, n).to_owned();
            proof {
                let s = cmd@;
                assert(0 <= i < s.len() && s[i as int] == ' ');
                let k = choose|k: int| 0 <= k < s.len() && s[k] == ' ' && forall|j: int| 0 <= j < k ==> s[j] != ' ';
                assert(0 <= i < s.len() && s[i as int] == ' ' && forall|j: int| 0 <= j < i ==> s[j] != ' ');
                if k < i {
                    assert(s[k] != ' ');
                } else if k > i {
                    assert(s[i as int] != ' ');
                }
            }
            return (prog, args);
        }
        i = i + 1;
    }
    (cmd.to_owned(), String::new())
}

/// What the configuration file holds, with the master key decoded.
pub struct Config {
    pub key_hex: String,
    pub key: [u8; L_KEY],
    pub gpath: String,
    pub command_push: String,
    pub command_pull: String,
}

impl Config {
    /// Builds the configuration from the values of the file's four keys; the
    /// master key is decoded from `key_hex`.
    pub fn load(key_hex: String, gpath: String, command_push: String, command_pull: String) -> (r: Result<Config, SyncError>)
        ensures
            r is Ok <==> is_hex_key(key_hex@),
            r is Ok ==> r->Ok_0.key@ == key_of_hex(key_hex@) && r->Ok_0.key_hex == key_hex
                && r->Ok_0.gpath == gpath && r->Ok_0.command_push == command_push
                && r->Ok_0.command_pull == command_pull,
            r is Err ==> r->Err_0 == SyncError::BadKey,
    {
        let key = Config::hex_to_key(&key_hex)?;
        Ok(Config { key_hex, key, gpath, command_push, command_pull })
    }

    /// The 32-byte key that a 64-digit hexadecimal string spells.
    pub fn hex_to_key(s: &String) -> (r: Result<[u8; L_KEY], SyncError>)
        ensures
            r is Ok <==> is_hex_key(s@),
            r is Ok ==> r->Ok_0@ == key_of_hex(s@),
            r is Err ==> r->Err_0 == SyncError::BadKey,
    {
        hex_to_key(s.as_str())
    }
}

} // verus!
