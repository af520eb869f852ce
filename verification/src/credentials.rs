//! The broker password: where it comes from, and when a secret file may be
//! trusted to hold it.

use vstd::prelude::*;
use vstd::string::*;

verus! {

/// The permission bits of a file mode: the lowest twelve bits.
pub const PERMISSION_MASK: u32 = 0o7777;

/// Read and write for the owner, nothing for anyone else.
pub const OWNER_READ_WRITE: u32 = 0o600;

/// Where the password for the broker is kept.
#[derive(Clone, Debug, PartialEq, Eq)]
pub enum PasswordSource {
    /// In the keyring of the operating system.
    Keyring,
    /// In the file at this path.
    SecretFile(String),
}

/// A password source, with its path as characters.
pub enum PasswordSourceView {
    Keyring,
    SecretFile(Seq<char>),
}

impl View for PasswordSource {
    type V = PasswordSourceView;

    open spec fn view(&self) -> PasswordSourceView {
        match self {
            PasswordSource::Keyring => PasswordSourceView::Keyring,
            PasswordSource::SecretFile(path) => PasswordSourceView::SecretFile(path@),
        }
    }
}

impl Default for PasswordSource {
    fn default() -> (source: PasswordSource)
        ensures
            source@ == PasswordSourceView::Keyring,
    {
        PasswordSource::Keyring
    }
}

/// Why no password could be had.
#[derive(Clone, Copy, Debug, PartialEq, Eq, Structural)]
pub enum CredentialError {
    /// The keyring holds no password for the user: it has to be set first.
    NotSet,
    /// The permission bits of the secret file are not exactly owner read and
    /// write.
    BadPermissions,
    /// The secret file belongs to another user than the one of this process.
    WrongOwner,
    /// The secret file belongs to another group than the one of this process.
    WrongGroup,
    /// The secret file could not be inspected or read.
    Unreadable,
    /// No user name is configured, so there is no one to keep a password for.
    NoUsername,
}

/// What the file system says of a file: its mode, and who owns it.
#[derive(Clone, Copy, Debug, PartialEq, Eq, Structural)]
pub struct FileStat {
    pub mode: u32,
    pub uid: u32,
    pub gid: u32,
}

/// The user and group as which a process runs.
#[derive(Clone, Copy, Debug, PartialEq, Eq, Structural)]
pub struct ProcessIdentity {
    pub uid: u32,
    pub gid: u32,
}

/// Calls `users::get_current_uid`, which asks the operating system for the
/// user id of this process. Nothing is claimed of the answer.
#[verifier::external_body]
fn current_uid() -> u32 {
    users::get_current_uid()
}

/// Calls `users::get_current_gid`, which asks the operating system for the
/// group id of this process. Nothing is claimed of the answer.
#[verifier::external_body]
fn current_gid() -> u32 {
    users::get_current_gid()
}

impl ProcessIdentity {
    /// The identity of the running process.
    pub fn current() -> ProcessIdentity {
        ProcessIdentity { uid: current_uid(), gid: current_gid() }
    }
}

/// Whether a secret file may be used by a process: first its permission bits
/// must be exactly owner read and write, then its owner must be the user of
/// the process, then its group the group of the process. The first of these
/// that fails is the reason given.
pub open spec fn secret_file_verdict(stat: FileStat, process: ProcessIdentity) -> Result<
    (),
    CredentialError,
> {
    if stat.mode & PERMISSION_MASK != OWNER_READ_WRITE {
        Err(CredentialError::BadPermissions)
    } else if stat.uid != process.uid {
        Err(CredentialError::WrongOwner)
    } else if stat.gid != process.gid {
        Err(CredentialError::WrongGroup)
    } else {
        Ok(())
    }
}

/// Judges a secret file by its mode and ownership.
pub fn check_secret_file(stat: &FileStat, process: &ProcessIdentity) -> (verdict: Result<
    (),
    CredentialError,
>)
    ensures
        verdict == secret_file_verdict(*stat, *process),
{
    if stat.mode & PERMISSION_MASK != OWNER_READ_WRITE {
        Err(CredentialError::BadPermissions)
    } else if stat.uid != process.uid {
        Err(CredentialError::WrongOwner)
    } else if stat.gid != process.gid {
        Err(CredentialError::WrongGroup)
    } else {
        Ok(())
    }
}

/// A file whose permission bits are not owner read and write is refused for
/// that reason, whoever owns it and whoever asks.
pub proof fn lemma_loose_permissions_are_refused(stat: FileStat, process: ProcessIdentity)
    requires
        stat.mode & PERMISSION_MASK != OWNER_READ_WRITE,
    ensures
        secret_file_verdict(stat, process) == Err::<(), CredentialError>(
            CredentialError::BadPermissions,
        ),
{
}

/// The place of a password in the keyring: a service, and a user of it.
#[derive(Clone, Debug, PartialEq, Eq)]
pub struct KeyringEntry {
    pub service: String,
    pub username: String,
}

/// The place in the keyring where the password of the configured user is
/// kept under `service`. Without a configured user there is no such place.
pub fn keyring_entry(service: &str, username: &Option<String>) -> (entry: Result<
    KeyringEntry,
    CredentialError,
>)
    ensures
        match username {
            Some(name) => entry is Ok && entry->Ok_0.service@ == service@
                && entry->Ok_0.username@ == name@,
            None => entry == Err::<KeyringEntry, CredentialError>(CredentialError::NoUsername),
        },
{
    match username {
        Some(name) => Ok(
            KeyringEntry { service: String::from_str(service), username: name.clone() },
        ),
        None => Err(CredentialError::NoUsername),
    }
}

/// Whether `c` is white space to `str::trim`: whether it has the Unicode
/// property White_Space.
pub uninterp spec fn white_space(c: char) -> bool;

/// Whether `rest` is the part of `text` from `from` up to, but not including,
/// `to`, and is what trimming leaves: all that stands before it and behind it
/// is white space, and it neither begins nor ends with white space.
pub open spec fn cut_at(text: Seq<char>, rest: Seq<char>, from: int, to: int) -> bool {
    &&& 0 <= from <= to <= text.len()
    &&& rest == text.subrange(from, to)
    &&& forall|i: int| 0 <= i < from ==> white_space(#[trigger] text[i])
    &&& forall|i: int| to <= i < text.len() ==> white_space(#[trigger] text[i])
    &&& from < to ==> !white_space(text[from]) && !white_space(text[to - 1])
}

/// Whether `rest` is `text` without the white space around it.
pub open spec fn is_trimmed(text: Seq<char>, rest: Seq<char>) -> bool {
    exists|from: int, to: int| #[trigger] cut_at(text, rest, from, to)
}

/// A text without the white space around it.
pub open spec fn trimmed(text: Seq<char>) -> Seq<char> {
    choose|rest: Seq<char>| is_trimmed(text, rest)
}

proof fn lemma_cuts_agree(text: Seq<char>, one: Seq<char>, other: Seq<char>)
    requires
        is_trimmed(text, one),
        is_trimmed(text, other),
    ensures
        one == other,
{
    let (a, b) = choose|a: int, b: int| #[trigger] cut_at(text, one, a, b);
    let (c, d) = choose|c: int, d: int| #[trigger] cut_at(text, other, c, d);
    if a < b && c < d {
        assert(!white_space(text[a]) && !white_space(text[c]));
        assert(a == c) by {
            if a < c {
                assert(white_space(text[a]));
            }
            if c < a {
                assert(white_space(text[c]));
            }
        }
        assert(b == d) by {
            if b < d {
                assert(white_space(text[d - 1]));
            }
            if d < b {
                assert(white_space(text[b - 1]));
            }
        }
    } else if a < b {
        assert(white_space(text[a]));
    } else if c < d {
        assert(white_space(text[c]));
    } else {
        assert(one =~= other);
    }
}

/// Trimming leaves one thing only: two texts that are both `text` without
/// the white space around it are the same, and are `trimmed(text)`.
pub proof fn lemma_trimmed_is_unique(text: Seq<char>, one: Seq<char>, other: Seq<char>)
    requires
        is_trimmed(text, one),
        is_trimmed(text, other),
    ensures
        one == other,
        one == trimmed(text),
{
    lemma_cuts_agree(text, one, other);
    lemma_cuts_agree(text, trimmed(text), one);
}

/// A text that neither begins nor ends with white space is left as it is.
pub proof fn lemma_trimmed_text_stays(text: Seq<char>)
    requires
        text.len() > 0 ==> !white_space(text[0]) && !white_space(text[text.len() - 1]),
    ensures
        trimmed(text) == text,
{
    assert(text.subrange(0, text.len() as int) =~= text);
    assert(cut_at(text, text, 0, text.len() as int));
    lemma_trimmed_is_unique(text, text, text);
}

/// Calls `str::trim`, which returns the text without its leading and trailing
/// white space. The contract says so: what comes back is one piece of the
/// text, nothing but white space is cut off in front of it and behind it,
/// and it neither begins nor ends with white space. Which characters are
/// white space is left to the name `white_space`.
#[verifier::external_body]
fn trim(text: &str) -> (rest: &str)
    ensures
        (exists|from: int, to: int|
            0 <= from <= to == from + rest@.len() <= text@.len() && rest@
                == #[trigger] text@.subrange(from, to) && (forall|i: int|
                0 <= i < from || from + rest@.len() <= i < text@.len() ==> white_space(
                    #[trigger] text@[i],
                )) && (rest@.len() > 0 ==> !white_space(rest@[0]) && !white_space(
                rest@[rest@.len() - 1],
            ))),
{
    text.trim()
}

/// The password that a secret file holds: its contents without the white
/// space around them.
pub fn secret_from_file(contents: &str) -> (secret: String)
    ensures
        is_trimmed(contents@, secret@),
        secret@ == trimmed(contents@),
{
    let rest = trim(contents);
    proof {
        let text = contents@;
        let (from, to) = choose|from: int, to: int|
            0 <= from <= to == from + rest@.len() <= text.len() && rest@
                == #[trigger] text.subrange(from, to) && (forall|i: int|
                0 <= i < from || from + rest@.len() <= i < text.len() ==> white_space(
                    #[trigger] text[i],
                )) && (rest@.len() > 0 ==> !white_space(rest@[0]) && !white_space(
                rest@[rest@.len() - 1],
            ));
        assert(cut_at(text, rest@, from, to));
        lemma_trimmed_is_unique(text, rest@, rest@);
    }
    String::from_str(rest)
}

/// The password that the keyring gave, or the reason why there is none.
pub fn secret_from_keyring(found: Option<String>) -> (secret: Result<String, CredentialError>)
    ensures
        match found {
            Some(password) => secret == Ok::<String, CredentialError>(password),
            None => secret == Err::<String, CredentialError>(CredentialError::NotSet),
        },
{
    match found {
        Some(password) => Ok(password),
        None => Err(CredentialError::NotSet),
    }
}

} // verus!
