use vstd::prelude::*;

use crate::index_query::opt_str_view;
use crate::keyed::KeyedList;
use crate::text::{chars_of, push_all, push_str, string_of};

verus! {

/// The secret half of a connection's credentials.
#[derive(Debug)]
pub struct ConnectionSecrets {
    pub secret_access_key: String,
    pub session_token: Option<String>,
}

/// The mathematical value of [`ConnectionSecrets`].
pub struct SecretsView {
    pub secret_access_key: Seq<char>,
    pub session_token: Option<Seq<char>>,
}

impl View for ConnectionSecrets {
    type V = SecretsView;

    open spec fn view(&self) -> SecretsView {
        SecretsView {
            secret_access_key: self.secret_access_key@,
            session_token: opt_str_view(self.session_token),
        }
    }
}

/// A field-by-field copy.
pub fn copy_secrets(s: &ConnectionSecrets) -> (r: ConnectionSecrets)
    ensures
        r@ == s@,
{
    ConnectionSecrets {
        secret_access_key: string_of(&chars_of(s.secret_access_key.as_str())),
        session_token: crate::plans::copy_opt(&s.session_token),
    }
}

/// How serde_json writes one character inside a string: `"` and `\`
/// escaped, the short escapes `\b`, `\t`, `\n`, `\f` and `\r`, `\u00XX`
/// (lower-case hex) for the other characters below U+0020, and any other
/// character as itself.
pub open spec fn json_char(c: char) -> Seq<char> {
    if c == '"' {
        seq!['\\', '"']
    } else if c == '\\' {
        seq!['\\', '\\']
    } else if c == '\u{8}' {
        seq!['\\', 'b']
    } else if c == '\t' {
        seq!['\\', 't']
    } else if c == '\n' {
        seq!['\\', 'n']
    } else if c == '\u{c}' {
        seq!['\\', 'f']
    } else if c == '\r' {
        seq!['\\', 'r']
    } else if (c as u32) < 0x20 {
        seq![
            '\\',
            'u',
            '0',
            '0',
            crate::text::hex_char(((c as u32) / 16) as nat),
            crate::text::hex_char(((c as u32) % 16) as nat),
        ]
    } else {
        seq![c]
    }
}

/// The characters of `s` as serde_json writes them inside a string.
pub open spec fn json_escaped(s: Seq<char>) -> Seq<char>
    decreases s.len(),
{
    if s.len() == 0 {
        Seq::empty()
    } else {
        json_escaped(s.drop_last()) + json_char(s.last())
    }
}

/// The JSON string literal of `s` as `serde_json::to_string` writes it:
/// quoted, with its escapes.
pub open spec fn json_quote(s: Seq<char>) -> Seq<char> {
    seq!['"'] + json_escaped(s) + seq!['"']
}

fn json_char_text(c: char) -> (r: Vec<char>)
    ensures
        r@ == json_char(c),
{
    if c == '"' {
        vec!['\\', '"']
    } else if c == '\\' {
        vec!['\\', '\\']
    } else if c == '\u{8}' {
        vec!['\\', 'b']
    } else if c == '\t' {
        vec!['\\', 't']
    } else if c == '\n' {
        vec!['\\', 'n']
    } else if c == '\u{c}' {
        vec!['\\', 'f']
    } else if c == '\r' {
        vec!['\\', 'r']
    } else if (c as u32) < 0x20 {
        let code: u64 = c as u64;
        let hi = crate::text::hex_digit(code / 16);
        let lo = crate::text::hex_digit(code % 16);
        let r = vec!['\\', 'u', '0', '0', hi, lo];
        assert(r@ =~= json_char(c));
        r
    } else {
        vec![c]
    }
}

/// The JSON string literal of `s` (see [`json_quote`]).
pub(crate) fn json_string(s: &str) -> (r: String)
    ensures
        r@ == json_quote(s@),
{
    let v = chars_of(s);
    let mut out: Vec<char> = vec!['"'];
    let mut i: usize = 0;
    while i < v.len()
        invariant
            i <= v.len(),
            out@ == seq!['"'] + json_escaped(v@.subrange(0, i as int)),
        decreases v.len() - i,
    {
        let e = json_char_text(v[i]);
        let ghost before = out@;
        push_all(&mut out, &e);
        proof {
            let pre = v@.subrange(0, i as int);
            let post = v@.subrange(0, i + 1);
            assert(post.drop_last() =~= pre);
            assert(post.last() == v@[i as int]);
            assert(out@ =~= seq!['"'] + json_escaped(post));
        }
        i += 1;
    }
    out.push('"');
    proof {
        assert(v@.subrange(0, v.len() as int) =~= s@);
    }
    assert(out@ =~= json_quote(s@));
    string_of(&out)
}

/// What the keychain stores for a connection: the bare secret key when
/// there is no session token, else the compact JSON object of both fields.
pub open spec fn keyring_text(s: SecretsView) -> Seq<char> {
    match s.session_token {
        None => s.secret_access_key,
        Some(t) => "{\"secret_access_key\":"@ + json_quote(s.secret_access_key)
            + ",\"session_token\":"@ + json_quote(t) + "}"@,
    }
}

/// The keychain text of a connection's secrets (see [`keyring_text`]).
pub fn serialize_keyring_value(secrets: &ConnectionSecrets) -> (r: String)
    ensures
        r@ == keyring_text(secrets@),
{
    match &secrets.session_token {
        None => string_of(&chars_of(secrets.secret_access_key.as_str())),
        Some(t) => {
            let mut out = chars_of("{\"secret_access_key\":");
            push_str(&mut out, json_string(secrets.secret_access_key.as_str()).as_str());
            push_str(&mut out, ",\"session_token\":");
            push_str(&mut out, json_string(t.as_str()).as_str());
            push_str(&mut out, "}");
            string_of(&out)
        },
    }
}

/// The secrets a keychain value stands for: what it parsed to as JSON (a
/// string, or an object with the secret key and an optional session
/// token), else the whole value as a bare secret key.
pub fn parse_keyring_value(value: &str, parsed: Option<ConnectionSecrets>) -> (r: ConnectionSecrets)
    ensures
        match parsed {
            Some(p) => r@ == p@,
            None => r@ == (SecretsView { secret_access_key: value@, session_token: None }),
        },
{
    match parsed {
        Some(p) => p,
        None => ConnectionSecrets {
            secret_access_key: string_of(&chars_of(value)),
            session_token: None,
        },
    }
}

/// What to do with the secrets file after a change to it.
#[derive(Debug, Clone, Copy, PartialEq, Eq, Structural)]
pub enum FileAction {
    /// Nothing changed: leave the file as it is.
    Keep,
    /// No secrets are left: remove the file.
    Remove,
    /// Write the file anew.
    Write,
}

/// The secrets kept in a file, by connection id.
pub struct SecretsFile {
    secrets: KeyedList<ConnectionSecrets>,
}

impl SecretsFile {
    pub closed spec fn wf(&self) -> bool {
        self.secrets.wf()
    }

    /// The secrets by connection id.
    pub closed spec fn entries(&self) -> Map<Seq<char>, SecretsView> {
        self.secrets@.map_values(|s: ConnectionSecrets| s@)
    }

    /// An empty file.
    pub fn new() -> (r: SecretsFile)
        ensures
            r.wf(),
            r.entries() == Map::<Seq<char>, SecretsView>::empty(),
    {
        let r = SecretsFile { secrets: KeyedList::new() };
        assert(r.entries() =~= Map::<Seq<char>, SecretsView>::empty());
        r
    }

    /// The stored entries, for saving.
    pub fn list(&self) -> (r: &KeyedList<ConnectionSecrets>)
        requires
            self.wf(),
        ensures
            r.wf(),
            r@.map_values(|s: ConnectionSecrets| s@) == self.entries(),
    {
        &self.secrets
    }

    /// Whether no secrets are kept.
    pub fn is_empty(&self) -> (b: bool)
        requires
            self.wf(),
        ensures
            b == (self.entries().dom() == Set::<Seq<char>>::empty()),
    {
        let all = self.secrets.entries();
        let b = all.len() == 0;
        proof {
            let s = all@;
            if b {
                assert(self.entries().dom() =~= Set::<Seq<char>>::empty());
            } else {
                crate::keyed::lemma_entry_map_at(s, 0);
                assert(self.entries().dom().contains(s[0].0@));
            }
        }
        b
    }

    /// The secrets of a connection.
    pub fn get(&self, connection_id: &str) -> (r: Option<ConnectionSecrets>)
        requires
            self.wf(),
        ensures
            match r {
                Some(s) => self.entries().dom().contains(connection_id@) && s@
                    == self.entries()[connection_id@],
                None => !self.entries().dom().contains(connection_id@),
            },
    {
        match self.secrets.get(connection_id) {
            Some(s) => Some(copy_secrets(s)),
            None => None,
        }
    }

    /// Stores the secrets of a connection, replacing what was there.
    pub fn set(&mut self, connection_id: &str, secrets: ConnectionSecrets)
        requires
            old(self).wf(),
        ensures
            final(self).wf(),
            final(self).entries() == old(self).entries().insert(connection_id@, secrets@),
    {
        let ghost before = self.entries();
        let ghost v = secrets@;
        self.secrets.insert(connection_id, secrets);
        assert(self.entries() =~= before.insert(connection_id@, v));
    }

    /// Drops the secrets of a connection, and says what the file needs:
    /// nothing where there were none, removal where none are left, else a
    /// rewrite.
    pub fn remove(&mut self, connection_id: &str) -> (r: FileAction)
        requires
            old(self).wf(),
        ensures
            final(self).wf(),
            final(self).entries() == old(self).entries().remove(connection_id@),
            !old(self).entries().dom().contains(connection_id@) ==> r == FileAction::Keep,
            old(self).entries().dom().contains(connection_id@) ==> (r == FileAction::Remove
                <==> final(self).entries().dom() == Set::<Seq<char>>::empty()),
            old(self).entries().dom().contains(connection_id@) ==> r != FileAction::Keep,
    {
        let ghost before = self.entries();
        let taken = self.secrets.take(connection_id);
        assert(self.entries() =~= before.remove(connection_id@));
        match taken {
            None => FileAction::Keep,
            Some(_) => {
                if self.is_empty() {
                    FileAction::Remove
                } else {
                    FileAction::Write
                }
            },
        }
    }
}

} // verus!
