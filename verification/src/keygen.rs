//! Generation of a cryptosign key pair.

use rand::RngCore;
use vstd::prelude::*;

verus! {

/// The character of a hexadecimal digit below sixteen, in lower case.
pub open spec fn hex_digit(n: u8) -> char
    recommends
        n < 16,
{
    if n < 10 {
        ('0' as u8 + n) as char
    } else {
        ('a' as u8 + (n - 10)) as char
    }
}

/// The lower-case hexadecimal text of `bytes`: two digits per byte, the
/// high half first.
pub open spec fn hex_text(bytes: Seq<u8>) -> Seq<char> {
    Seq::new(
        2 * bytes.len(),
        |i: int|
            if i % 2 == 0 {
                hex_digit(bytes[i / 2] >> 4)
            } else {
                hex_digit(bytes[i / 2] & 0x0f)
            },
    )
}

/// The ed25519 public key that belongs to a 32-byte secret key.
pub uninterp spec fn ed25519_public_key(secret: Seq<u8>) -> Seq<u8>;

fn hex_digit_text(n: u8) -> (s: &'static str)
    requires
        n < 16,
    ensures
        s@ == seq![hex_digit(n)],
{
    proof {
        reveal_strlit("0");
        reveal_strlit("1");
        reveal_strlit("2");
        reveal_strlit("3");
        reveal_strlit("4");
        reveal_strlit("5");
        reveal_strlit("6");
        reveal_strlit("7");
        reveal_strlit("8");
        reveal_strlit("9");
        reveal_strlit("a");
        reveal_strlit("b");
        reveal_strlit("c");
        reveal_strlit("d");
        reveal_strlit("e");
        reveal_strlit("f");
    }
    let s: &'static str = if n == 0 {
        "0"
    } else if n == 1 {
        "1"
    } else if n == 2 {
        "2"
    } else if n == 3 {
        "3"
    } else if n == 4 {
        "4"
    } else if n == 5 {
        "5"
    } else if n == 6 {
        "6"
    } else if n == 7 {
        "7"
    } else if n == 8 {
        "8"
    } else if n == 9 {
        "9"
    } else if n == 10 {
        "a"
    } else if n == 11 {
        "b"
    } else if n == 12 {
        "c"
    } else if n == 13 {
        "d"
    } else if n == 14 {
        "e"
    } else {
        "f"
    };
    assert(s@ =~= seq![hex_digit(n)]);
    s
}

/// Writes bytes as lower-case hexadecimal text.
pub fn encode_hex(bytes: &[u8]) -> (text: String)
    ensures
        text@ == hex_text(bytes@),
{
    let mut text: String = String::new();
    let mut i: usize = 0;
    assert(text@ =~= hex_text(bytes@.take(0)));
    while i < bytes.len()
        invariant
            i <= bytes@.len(),
            text@ == hex_text(bytes@.take(i as int)),
        decreases bytes@.len() - i,
    {
        let byte: u8 = bytes[i];
        let high: u8 = byte >> 4;
        let low: u8 = byte & 0x0f;
        proof {
            assert(byte >> 4 < 16) by (bit_vector);
            assert(byte & 0x0f < 16) by (bit_vector);
        }
        text.append(hex_digit_text(high));
        text.append(hex_digit_text(low));
        proof {
            let before = hex_text(bytes@.take(i as int));
            let after = hex_text(bytes@.take(i + 1));
            assert(after.len() == before.len() + 2);
            assert forall|k: int| 0 <= k < after.len() implies after[k] == (before + seq![
                hex_digit(high),
            ] + seq![hex_digit(low)])[k] by {
                if k < 2 * i {
                    assert(bytes@.take(i + 1)[k / 2] == bytes@.take(i as int)[k / 2]);
                } else {
                    assert(k / 2 == i);
                    assert(bytes@.take(i + 1)[k / 2] == byte);
                }
            }
            assert(text@ =~= after);
        }
        i = i + 1;
    }
    assert(bytes@.take(i as int) =~= bytes@);
    text
}

/// Calls `ed25519_dalek::SigningKey::from_bytes` and reads the bytes of the
/// verifying key it derives. The contract names the result, which depends
/// on the secret key alone, and claims nothing else of it.
#[verifier::external_body]
fn derive_public_key(secret: &[u8; 32]) -> (public: [u8; 32])
    ensures
        public@ == ed25519_public_key(secret@),
{
    ed25519_dalek::SigningKey::from_bytes(secret).verifying_key().to_bytes()
}

/// Calls `rand::rngs::OsRng::try_fill_bytes` on 32 bytes. Nothing is
/// claimed of the bytes, and the call may fail where the operating system
/// has no randomness to give.
#[verifier::external_body]
fn draw_secret() -> (secret: Option<[u8; 32]>) {
    let mut secret = [0u8; 32];
    match rand::rngs::OsRng.try_fill_bytes(&mut secret) {
        Ok(()) => Some(secret),
        Err(_) => None,
    }
}

/// A key pair in the form the client shows and stores it.
#[derive(Debug, PartialEq, Eq)]
pub struct KeyPair {
    /// The public key, in lower-case hexadecimal.
    pub public_key: String,
    /// The private key, in lower-case hexadecimal.
    pub private_key: String,
}

/// A file to write, and the line to show once it is written.
#[derive(Debug, PartialEq, Eq)]
pub struct KeyFile {
    pub path: String,
    pub content: String,
    pub notice: String,
}

/// What the key generation command shows and writes, in this order: the
/// two lines, then each file followed by its notice.
#[derive(Debug, PartialEq, Eq)]
pub struct KeygenOutput {
    pub lines: Vec<String>,
    pub files: Vec<KeyFile>,
}

/// Whether `pair` is the key pair of the secret key `secret`.
pub open spec fn is_pair_of(pair: KeyPair, secret: Seq<u8>) -> bool {
    &&& secret.len() == 32
    &&& pair.private_key@ == hex_text(secret)
    &&& pair.public_key@ == hex_text(ed25519_public_key(secret))
}

/// The file that holds `key`: the key on a line of its own.
pub open spec fn key_file_content(key: Seq<char>) -> Seq<char> {
    key + "\n"@
}

impl KeyPair {
    /// The key pair of a secret key.
    pub fn from_secret(secret: &[u8; 32]) -> (pair: KeyPair)
        ensures
            is_pair_of(pair, secret@),
    {
        let public: [u8; 32] = derive_public_key(secret);
        KeyPair {
            public_key: encode_hex(public.as_slice()),
            private_key: encode_hex(secret.as_slice()),
        }
    }

    /// A fresh key pair from the operating system's randomness, or `None`
    /// where the operating system gives none.
    pub fn generate() -> (pair: Option<KeyPair>)
        ensures
            pair is Some ==> exists|secret: Seq<u8>| #[trigger] is_pair_of(pair->Some_0, secret),
    {
        let drawn: Option<[u8; 32]> = draw_secret();
        let result: Option<KeyPair> = KeyPair::from_draw(&drawn);
        assert(result is Some ==> is_pair_of(result->Some_0, drawn->Some_0@));
        result
    }

    /// The key pair of what a draw of randomness gave: the pair of the
    /// secret key where one was drawn, and `None` where none was.
    pub fn from_draw(drawn: &Option<[u8; 32]>) -> (pair: Option<KeyPair>)
        ensures
            pair is Some <==> drawn is Some,
            drawn matches Some(secret) ==> is_pair_of(pair->Some_0, secret@),
    {
        match drawn {
            Some(secret) => Some(KeyPair::from_secret(secret)),
            None => None,
        }
    }

    /// The line that shows the public key.
    pub fn public_key_line(&self) -> (line: String)
        ensures
            line@ == "Public Key: "@ + self.public_key@,
    {
        let mut line: String = String::from_str("Public Key: ");
        line.append(self.public_key.as_str());
        line
    }

    /// The line that shows the private key.
    pub fn private_key_line(&self) -> (line: String)
        ensures
            line@ == "Private Key: "@ + self.private_key@,
    {
        let mut line: String = String::from_str("Private Key: ");
        line.append(self.private_key.as_str());
        line
    }

    /// The file for the public key under the name `name`: `name.pub`.
    pub fn public_key_file(&self, name: &str) -> (file: KeyFile)
        ensures
            file.path@ == name@ + ".pub"@,
            file.content@ == key_file_content(self.public_key@),
            file.notice@ == "Public key written to "@ + file.path@,
    {
        let mut path: String = String::from_str(name);
        path.append(".pub");
        let mut content: String = self.public_key.clone();
        content.append("\n");
        let mut notice: String = String::from_str("Public key written to ");
        notice.append(path.as_str());
        KeyFile { path, content, notice }
    }

    /// The file for the private key under the name `name`: `name` itself.
    pub fn private_key_file(&self, name: &str) -> (file: KeyFile)
        ensures
            file.path@ == name@,
            file.content@ == key_file_content(self.private_key@),
            file.notice@ == "Private key written to "@ + file.path@,
    {
        let path: String = String::from_str(name);
        let mut content: String = self.private_key.clone();
        content.append("\n");
        let mut notice: String = String::from_str("Private key written to ");
        notice.append(path.as_str());
        KeyFile { path, content, notice }
    }
}

/// What the key generation command does with a key pair: it shows both
/// keys, the public one first, and writes them to files where a name is
/// given, the public key first.
pub fn handle(pair: &KeyPair, output_file: &Option<String>) -> (output: KeygenOutput)
    ensures
        output.lines@.len() == 2,
        output.lines@[0]@ == "Public Key: "@ + pair.public_key@,
        output.lines@[1]@ == "Private Key: "@ + pair.private_key@,
        output_file is None ==> output.files@.len() == 0,
        output_file matches Some(name) ==> {
            &&& output.files@.len() == 2
            &&& output.files@[0].path@ == name@ + ".pub"@
            &&& output.files@[0].content@ == key_file_content(pair.public_key@)
            &&& output.files@[0].notice@ == "Public key written to "@ + output.files@[0].path@
            &&& output.files@[1].path@ == name@
            &&& output.files@[1].content@ == key_file_content(pair.private_key@)
            &&& output.files@[1].notice@ == "Private key written to "@ + output.files@[1].path@
        },
{
    let mut lines: Vec<String> = Vec::new();
    lines.push(pair.public_key_line());
    lines.push(pair.private_key_line());
    let mut files: Vec<KeyFile> = Vec::new();
    match output_file {
        Some(name) => {
            files.push(pair.public_key_file(name.as_str()));
            files.push(pair.private_key_file(name.as_str()));
        },
        None => {},
    }
    KeygenOutput { lines, files }
}

/// The hexadecimal text has two characters per byte, and each is a digit or
/// a letter from `a` to `f`.
pub proof fn lemma_hex_text_shape(bytes: Seq<u8>)
    ensures
        hex_text(bytes).len() == 2 * bytes.len(),
        forall|i: int|
            0 <= i < hex_text(bytes).len() ==> {
                let c = #[trigger] hex_text(bytes)[i];
                ('0' <= c && c <= '9') || ('a' <= c && c <= 'f')
            },
{
    assert forall|i: int| 0 <= i < hex_text(bytes).len() implies {
        let c = #[trigger] hex_text(bytes)[i];
        ('0' <= c && c <= '9') || ('a' <= c && c <= 'f')
    } by {
        let b: u8 = bytes[i / 2];
        assert(b >> 4 < 16) by (bit_vector);
        assert(b & 0x0f < 16) by (bit_vector);
    }
}

} // verus!
