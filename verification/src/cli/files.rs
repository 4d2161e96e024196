//! Files that a message mentions, and images as text.
use crate::dup::Dup;
use crate::paths;
use crate::text;
use vstd::prelude::*;

verus! {

// ---------------------------------------------------------------------- base64
/// The character for a number below 64.
pub open spec fn sextet(n: nat) -> char {
    if n < 26 {
        (65 + n) as char
    } else if n < 52 {
        (71 + n) as char
    } else if n < 62 {
        (n - 4) as char
    } else if n == 62 {
        '+'
    } else {
        '/'
    }
}

/// The number that a character of base64 stands for.
pub open spec fn sextet_value(c: char) -> nat {
    if 'A' <= c <= 'Z' {
        (c as nat - 65) as nat
    } else if 'a' <= c <= 'z' {
        (c as nat - 71) as nat
    } else if '0' <= c <= '9' {
        c as nat + 4
    } else if c == '+' {
        62
    } else {
        63
    }
}

/// Three bytes as one number.
pub open spec fn triple(a: u8, b: u8, c: u8) -> nat {
    a as nat * 65536 + b as nat * 256 + c as nat
}

/// The base64 text of bytes: four characters for three bytes, filled up with `=`.
pub open spec fn base64(bytes: Seq<u8>) -> Seq<char>
    decreases bytes.len(),
{
    if bytes.len() == 0 {
        seq![]
    } else if bytes.len() == 1 {
        let n = triple(bytes[0], 0, 0);
        seq![sextet(n / 262144), sextet(n / 4096 % 64), '=', '=']
    } else if bytes.len() == 2 {
        let n = triple(bytes[0], bytes[1], 0);
        seq![sextet(n / 262144), sextet(n / 4096 % 64), sextet(n / 64 % 64), '=']
    } else {
        let n = triple(bytes[0], bytes[1], bytes[2]);
        seq![sextet(n / 262144), sextet(n / 4096 % 64), sextet(n / 64 % 64), sextet(n % 64)]
            + base64(bytes.skip(3))
    }
}

/// The bytes that base64 text stands for.
pub open spec fn base64_bytes(s: Seq<char>) -> Seq<u8>
    decreases s.len(),
{
    if s.len() < 4 {
        seq![]
    } else {
        let a = sextet_value(s[0]) * 262144 + sextet_value(s[1]) * 4096;
        if s[2] == '=' {
            seq![(a / 65536) as u8]
        } else if s[3] == '=' {
            let b = a + sextet_value(s[2]) * 64;
            seq![(b / 65536) as u8, (b / 256 % 256) as u8]
        } else {
            let b = a + sextet_value(s[2]) * 64 + sextet_value(s[3]);
            seq![(b / 65536) as u8, (b / 256 % 256) as u8, (b % 256) as u8] + base64_bytes(
                s.skip(4),
            )
        }
    }
}

proof fn lemma_sextet(n: nat)
    requires
        n < 64,
    ensures
        sextet_value(sextet(n)) == n,
        sextet(n) != '=',
{
}

proof fn lemma_triple(a: u8, b: u8, c: u8)
    ensures
        ({
            let n = triple(a, b, c);
            &&& n / 262144 < 64
            &&& n / 262144 * 262144 + n / 4096 % 64 * 4096 + n / 64 % 64 * 64 + n % 64 == n
            &&& n / 65536 == a
            &&& n / 256 % 256 == b
            &&& n % 256 == c
            &&& c == 0 ==> n % 64 == 0
            &&& b == 0 && c == 0 ==> n / 64 % 64 == 0
        }),
{
    let n = (a * 65536 + b * 256 + c) as u32;
    assert(n / 262144 < 64 && n / 262144 * 262144 + n / 4096 % 64 * 4096 + n / 64 % 64 * 64 + n % 64
        == n && n / 65536 == a && n / 256 % 256 == b && n % 256 == c && (c == 0 ==> n % 64 == 0)
        && (b == 0 && c == 0 ==> n / 64 % 64 == 0)) by (bit_vector)
        requires
            n == a * 65536 + b * 256 + c,
    ;
}

/// Base64 text gives back the bytes that it was made from.
pub proof fn law_base64_is_read_back(bytes: Seq<u8>)
    ensures
        base64_bytes(base64(bytes)) == bytes,
    decreases bytes.len(),
{
    let s = base64(bytes);
    if bytes.len() == 0 {
        assert(base64_bytes(s) =~= bytes);
    } else {
        let b1 = if bytes.len() > 1 {
            bytes[1]
        } else {
            0u8
        };
        let b2 = if bytes.len() > 2 {
            bytes[2]
        } else {
            0u8
        };
        let n = triple(bytes[0], b1, b2);
        lemma_triple(bytes[0], b1, b2);
        lemma_sextet(n / 262144);
        lemma_sextet(n / 4096 % 64);
        lemma_sextet(n / 64 % 64);
        lemma_sextet(n % 64);
        assert(s[0] == sextet(n / 262144) && s[1] == sextet(n / 4096 % 64));
        if bytes.len() > 2 {
            assert(s[2] == sextet(n / 64 % 64) && s[3] == sextet(n % 64));
            law_base64_is_read_back(bytes.skip(3));
            assert(s.skip(4) =~= base64(bytes.skip(3)));
            assert(base64_bytes(s) =~= seq![bytes[0], b1, b2] + bytes.skip(3));
            assert(seq![bytes[0], b1, b2] + bytes.skip(3) =~= bytes);
        } else if bytes.len() == 2 {
            assert(s[2] == sextet(n / 64 % 64) && s[3] == '=');
            assert(base64_bytes(s) =~= bytes);
        } else {
            assert(s[2] == '=');
            assert(base64_bytes(s) =~= bytes);
        }
    }
}

/// Base64 text is four characters long for each three bytes that were begun.
pub proof fn law_base64_length(bytes: Seq<u8>)
    ensures
        base64(bytes).len() == (bytes.len() + 2) / 3 * 4,
    decreases bytes.len(),
{
    if bytes.len() > 2 {
        law_base64_length(bytes.skip(3));
    }
}

fn sextet_char(n: u32) -> (c: char)
    requires
        n < 64,
    ensures
        c == sextet(n as nat),
{
    let code: u8 = n as u8;
    if code < 26 {
        (65 + code) as char
    } else if code < 52 {
        (71 + code) as char
    } else if code < 62 {
        (code - 4) as char
    } else if code == 62 {
        '+'
    } else {
        '/'
    }
}

/// The base64 text of bytes.
pub fn base64_encode(bytes: &[u8]) -> (out: String)
    ensures
        out@ == base64(bytes@),
{
    let mut out = String::new();
    let mut i: usize = 0;
    assert(bytes@.skip(0) =~= bytes@);
    while i < bytes.len()
        invariant
            i <= bytes@.len(),
            out@ + base64(bytes@.skip(i as int)) == base64(bytes@),
        decreases bytes.len() - i,
    {
        let ghost first = out@;
        let ghost rest = bytes@.skip(i as int);
        let left = bytes.len() - i;
        let b0 = bytes[i] as u32;
        let b1 = if left > 1 {
            bytes[i + 1] as u32
        } else {
            0
        };
        let b2 = if left > 2 {
            bytes[i + 2] as u32
        } else {
            0
        };
        let n: u32 = b0 * 65536 + b1 * 256 + b2;
        out.push(sextet_char(n / 262144));
        out.push(sextet_char(n / 4096 % 64));
        if left > 1 {
            out.push(sextet_char(n / 64 % 64));
        } else {
            out.push('=');
        }
        if left > 2 {
            out.push(sextet_char(n % 64));
            assert(rest.skip(3) =~= bytes@.skip(i + 3));
            assert(out@ + base64(bytes@.skip(i + 3)) =~= first + base64(rest));
            i += 3;
        } else {
            out.push('=');
            i = bytes.len();
            assert(base64(bytes@.skip(i as int)) =~= seq![]);
            assert(out@ =~= first + base64(rest));
        }
    }
    assert(bytes@.skip(i as int) =~= seq![]);
    assert(out@ + base64(seq![]) =~= out@);
    out
}

// ---------------------------------------------------------------------- mentions
/// How many bytes an image may have.
pub const MAX_IMAGE_BYTES: usize = 10_485_760;

/// How many characters of a file are shown.
pub const MAX_FILE_CHARS: usize = 50_000;

/// What is known of the file that a word of a message mentions.
pub struct FileFact {
    /// The canonical path, where there is one.
    pub canonical: Option<String>,
    pub is_file: bool,
    /// What the file holds, where it could be read.
    pub bytes: Option<Vec<u8>>,
}

/// What a `FileFact` stands for.
pub ghost struct FactView {
    pub canonical: Option<Seq<char>>,
    pub is_file: bool,
    pub bytes: Option<Seq<u8>>,
}

impl DeepView for FileFact {
    type V = FactView;

    open spec fn deep_view(&self) -> FactView {
        FactView {
            canonical: match self.canonical {
                Some(p) => Some(p@),
                None => None,
            },
            is_file: self.is_file,
            bytes: match self.bytes {
                Some(b) => Some(b@),
                None => None,
            },
        }
    }
}

/// The name of the file at a path: its last component, unless that is `..` or the
/// root.
pub open spec fn file_name(path: Seq<char>) -> Option<Seq<char>> {
    let parts = paths::components(path);
    if parts.len() == 0 || parts.last() == ".."@ || parts.last() == "."@ || parts.last() == "/"@ {
        None
    } else {
        Some(parts.last())
    }
}

/// What stands behind the last dot of the name of the file at a path, unless the
/// name begins with that dot.
pub open spec fn extension(path: Seq<char>) -> Option<Seq<char>> {
    match file_name(path) {
        Some(name) => match text::spec_rfind(name, "."@) {
            Some(i) => if i > 0 {
                Some(name.skip(i + 1))
            } else {
                None
            },
            None => None,
        },
        None => None,
    }
}

/// The name of the file at a path.
pub fn file_name_of(path: &str) -> (r: Option<String>)
    ensures
        r.deep_view() == file_name(path@),
{
    let parts = paths::components_of(path);
    let n = parts.len();
    assert(n > 0 ==> parts.deep_view().last() == parts@[n - 1]@);
    if n == 0 || text::same(&parts[n - 1], "..") || text::same(&parts[n - 1], ".") || text::same(
        &parts[n - 1],
        "/",
    ) {
        None
    } else {
        Some(parts[n - 1].dup())
    }
}

/// The extension of a path.
pub fn extension_of(path: &str) -> (r: Option<String>)
    ensures
        r.deep_view() == extension(path@),
{
    match file_name_of(path) {
        Some(name) => match text::rfind(&name, ".") {
            Some(i) => if i > 0 {
                proof {
                    reveal_strlit(".");
                }
                let n = text::count(&name);
                Some(text::sub_string(&name, i + 1, n))
            } else {
                None
            },
            None => None,
        },
        None => None,
    }
}

/// The type of an image with this extension, where it is one of an image.
pub open spec fn image_type(ext: Option<Seq<char>>) -> Option<Seq<char>> {
    match ext {
        None => None,
        Some(e) => {
            let e = text::lowercased(e);
            if e == "jpg"@ || e == "jpeg"@ {
                Some("image/jpeg"@)
            } else if e == "gif"@ {
                Some("image/gif"@)
            } else if e == "webp"@ {
                Some("image/webp"@)
            } else if e == "bmp"@ {
                Some("image/bmp"@)
            } else if e == "png"@ {
                Some("image/png"@)
            } else {
                None
            }
        },
    }
}

/// The type of an image with this extension.
pub fn image_mime(ext: Option<&str>) -> (r: Option<&'static str>)
    ensures
        r.deep_view() == image_type(
            match ext {
                Some(e) => Some(e@),
                None => None,
            },
        ),
{
    match ext {
        None => None,
        Some(e) => {
            let e = text::to_lowercase(e);
            if text::same(&e, "jpg") || text::same(&e, "jpeg") {
                Some("image/jpeg")
            } else if text::same(&e, "gif") {
                Some("image/gif")
            } else if text::same(&e, "webp") {
                Some("image/webp")
            } else if text::same(&e, "bmp") {
                Some("image/bmp")
            } else if text::same(&e, "png") {
                Some("image/png")
            } else {
                None
            }
        },
    }
}

/// Whether a file is read for a message: it has to lie below the working
/// directory.
pub open spec fn is_inlined(cwd: Option<Seq<char>>, fact: FactView) -> bool {
    match (fact.canonical, cwd) {
        (Some(file), Some(base)) => fact.is_file && paths::components(base).is_prefix_of(
            paths::components(file),
        ),
        _ => false,
    }
}

/// Whether a file is read for a message.
pub fn is_read(cwd: Option<&str>, fact: &FileFact) -> (r: bool)
    ensures
        r == is_inlined(
            match cwd {
                Some(c) => Some(c@),
                None => None,
            },
            fact.deep_view(),
        ),
{
    match (&fact.canonical, cwd) {
        (Some(file), Some(base)) => {
            let under = paths::components_of(file);
            let above = paths::components_of(base);
            fact.is_file && paths::is_under(under.as_slice(), above.as_slice())
        },
        _ => false,
    }
}

/// What a message becomes: its words, and the images that were taken out.
pub ghost struct Inlined {
    pub words: Seq<Seq<char>>,
    pub images: Seq<Seq<char>>,
}

/// The beginning of the text of a file, with a mark where it goes on.
pub open spec fn capped(content: Seq<char>) -> Seq<char> {
    if content.len() > MAX_FILE_CHARS {
        content.take(MAX_FILE_CHARS as int) + "\n… (truncated)"@
    } else {
        content
    }
}

/// The text that bytes encode, and nothing where they encode none.
pub open spec fn content_of(bytes: Option<Seq<u8>>) -> Seq<char> {
    match bytes {
        Some(b) => if vstd::utf8::valid_utf8(b) {
            vstd::utf8::decode_utf8(b)
        } else {
            seq![]
        },
        None => seq![],
    }
}

/// A file as a part of a message.
pub open spec fn file_block(path: Seq<char>, content: Seq<char>) -> Seq<char> {
    "<file name=\""@ + path + "\">\n"@ + capped(content) + "\n</file>"@
}

/// Whether the file at `path` is taken into the message: it lies inside and can be
/// read, and is no image that is too large.
pub open spec fn is_taken(
    cwd: Seq<char>,
    canonical_cwd: Option<Seq<char>>,
    path: Seq<char>,
    fact: FactView,
) -> bool {
    is_inlined(canonical_cwd, fact) && (image_type(extension(paths::joined(cwd, path))) is Some ==> (
    fact.bytes matches Some(b) && b.len() <= MAX_IMAGE_BYTES))
}

/// What becomes of a word that mentions the file at `path`: an image is attached,
/// another file is shown, and a word whose file is not taken stays as it is.
pub open spec fn with_mention(
    done: Inlined,
    cwd: Seq<char>,
    canonical_cwd: Option<Seq<char>>,
    word: Seq<char>,
    path: Seq<char>,
    fact: FactView,
) -> Inlined {
    if !is_taken(cwd, canonical_cwd, path, fact) {
        Inlined { words: done.words.push(word), ..done }
    } else {
        match image_type(extension(paths::joined(cwd, path))) {
            Some(mime) => Inlined {
                images: done.images.push("data:"@ + mime + ";base64,"@ + base64(fact.bytes->0)),
                ..done
            },
            None => Inlined {
                words: done.words.push(file_block(path, content_of(fact.bytes))),
                ..done
            },
        }
    }
}

/// The paths that words mention with an `@`.
pub open spec fn mentioned(words: Seq<Seq<char>>) -> Seq<Seq<char>>
    decreases words.len(),
{
    if words.len() == 0 {
        seq![]
    } else {
        match text::without_prefix(words.last(), "@"@) {
            Some(path) => mentioned(words.drop_last()).push(path),
            None => mentioned(words.drop_last()),
        }
    }
}

/// What words become; the facts are those of the files that they mention, in
/// order.
pub open spec fn inlined(
    cwd: Seq<char>,
    canonical_cwd: Option<Seq<char>>,
    words: Seq<Seq<char>>,
    facts: Seq<FactView>,
) -> Inlined
    decreases words.len(),
{
    if words.len() == 0 {
        Inlined { words: seq![], images: seq![] }
    } else {
        let done = inlined(cwd, canonical_cwd, words.drop_last(), facts);
        match text::without_prefix(words.last(), "@"@) {
            Some(path) => with_mention(
                done,
                cwd,
                canonical_cwd,
                words.last(),
                path,
                facts[mentioned(words.drop_last()).len() as int],
            ),
            None => Inlined { words: done.words.push(words.last()), ..done },
        }
    }
}

/// Whether any file that these words mention is taken.
pub open spec fn takes_files(
    cwd: Seq<char>,
    canonical_cwd: Option<Seq<char>>,
    words: Seq<Seq<char>>,
    facts: Seq<FactView>,
) -> bool
    decreases words.len(),
{
    words.len() > 0 && (takes_files(cwd, canonical_cwd, words.drop_last(), facts) || (match text::without_prefix(
        words.last(),
        "@"@,
    ) {
        Some(path) => is_taken(
            cwd,
            canonical_cwd,
            path,
            facts[mentioned(words.drop_last()).len() as int],
        ),
        None => false,
    }))
}

/// The paths that a message mentions with an `@`, in order.
pub fn file_args(message: &str) -> (out: Vec<String>)
    ensures
        out.deep_view() == mentioned(text::spec_words(message@)),
{
    let words = text::words(message);
    let ghost view = words.deep_view();
    let mut out: Vec<String> = Vec::new();
    let mut i: usize = 0;
    assert(view.take(0) =~= seq![]);
    assert(out.deep_view() =~= seq![]);
    while i < words.len()
        invariant
            i <= words.len(),
            view == words.deep_view(),
            out.deep_view() == mentioned(view.take(i as int)),
        decreases words.len() - i,
    {
        assert(view.take(i + 1).drop_last() =~= view.take(i as int));
        assert(view[i as int] == words@[i as int]@);
        match text::strip_prefix(&words[i], "@") {
            Some(path) => {
                text::put(&mut out, path);
            },
            None => {},
        }
        i += 1;
    }
    assert(view.take(view.len() as int) =~= view);
    out
}

fn capped_text(content: &str) -> (r: String)
    ensures
        r@ == capped(content@),
{
    if text::count(content) > MAX_FILE_CHARS {
        let head = text::sub_string(content, 0, MAX_FILE_CHARS);
        assert(head@ =~= content@.take(MAX_FILE_CHARS as int));
        text::concat(&head, "\n… (truncated)")
    } else {
        content.to_owned()
    }
}

fn content_text(bytes: &Option<Vec<u8>>) -> (r: String)
    ensures
        r@ == content_of(
            match *bytes {
                Some(b) => Some(b@),
                None => None,
            },
        ),
{
    match bytes {
        Some(b) => match text::decode_utf8(b.as_slice()) {
            Some(s) => s,
            None => {
                let empty = String::new();
                assert(empty@ =~= seq![]);
                empty
            },
        },
        None => {
            let empty = String::new();
            assert(empty@ =~= seq![]);
            empty
        },
    }
}

fn put_mention(
    words: &mut Vec<String>,
    images: &mut Vec<String>,
    cwd: &str,
    canonical_cwd: Option<&str>,
    word: &str,
    path: &str,
    fact: &FileFact,
) -> (taken: bool)
    ensures
        taken == is_taken(
            cwd@,
            match canonical_cwd {
                Some(c) => Some(c@),
                None => None,
            },
            path@,
            fact.deep_view(),
        ),
        !taken ==> final(images).deep_view() == old(images).deep_view(),
        (Inlined { words: final(words).deep_view(), images: final(images).deep_view() })
            == with_mention(
            Inlined { words: old(words).deep_view(), images: old(images).deep_view() },
            cwd@,
            match canonical_cwd {
                Some(c) => Some(c@),
                None => None,
            },
            word@,
            path@,
            fact.deep_view(),
        ),
{
    if !is_read(canonical_cwd, fact) {
        text::put(words, word.to_owned());
        return false;
    }
    let full = paths::join(cwd, path);
    let ext = extension_of(&full);
    let ext_str = match &ext {
        Some(e) => Some(e.as_str()),
        None => None,
    };
    match image_mime(ext_str) {
        Some(mime) => match &fact.bytes {
            Some(b) => {
                if b.len() > MAX_IMAGE_BYTES {
                    text::put(words, word.to_owned());
                    return false;
                }
                text::put(
                    images,
                    text::concat4("data:", mime, ";base64,", &base64_encode(b.as_slice())),
                );
            },
            None => {
                text::put(words, word.to_owned());
                return false;
            },
        },
        None => {
            let shown = capped_text(&content_text(&fact.bytes));
            text::put(
                words,
                text::concat5("<file name=\"", path, "\">\n", &shown, "\n</file>"),
            );
        },
    }
    true
}

/// A message with the files that it mentions: the text, and the images that go
/// with it. A message of which no file is taken passes unchanged.
#[verifier::rlimit(40)]
pub fn inline_file_args(
    cwd: &str,
    canonical_cwd: Option<&str>,
    message: &str,
    facts: &[FileFact],
) -> (r: (String, Vec<String>))
    requires
        facts@.len() == mentioned(text::spec_words(message@)).len(),
    ensures
        ({
            let base = match canonical_cwd {
                Some(c) => Some(c@),
                None => None,
            };
            let words = text::spec_words(message@);
            let done = inlined(cwd@, base, words, facts.deep_view());
            if takes_files(cwd@, base, words, facts.deep_view()) {
                r.0@ == text::spec_join(done.words, " "@) && r.1.deep_view() == done.images
            } else {
                r.0@ == message@ && r.1.deep_view() == Seq::<Seq<char>>::empty()
            }
        }),
        mentioned(text::spec_words(message@)).len() == 0 ==> r.0@ == message@,
{
    let tokens = text::words(message);
    let ghost view = tokens.deep_view();
    let ghost base = match canonical_cwd {
        Some(c) => Some(c@),
        None => None,
    };
    let mut words: Vec<String> = Vec::new();
    let mut images: Vec<String> = Vec::new();
    let mut used: usize = 0;
    let mut any = false;
    let mut i: usize = 0;
    assert(view.take(0) =~= seq![]);
    assert(words.deep_view() =~= seq![]);
    assert(images.deep_view() =~= seq![]);
    while i < tokens.len()
        invariant
            i <= tokens.len(),
            view == tokens.deep_view(),
            facts@.len() == mentioned(view).len(),
            used == mentioned(view.take(i as int)).len(),
            base == (match canonical_cwd {
                Some(c) => Some(c@),
                None => None,
            }),
            (Inlined { words: words.deep_view(), images: images.deep_view() }) == inlined(
                cwd@,
                base,
                view.take(i as int),
                facts.deep_view(),
            ),
            any == takes_files(cwd@, base, view.take(i as int), facts.deep_view()),
            !any ==> images.deep_view() == Seq::<Seq<char>>::empty(),
        decreases tokens.len() - i,
    {
        assert(view.take(i + 1).drop_last() =~= view.take(i as int));
        assert(view[i as int] == tokens@[i as int]@);
        proof {
            lemma_mentioned_grows(view, i + 1);
        }
        match text::strip_prefix(&tokens[i], "@") {
            Some(path) => {
                assert(facts.deep_view()[used as int] == facts@[used as int].deep_view());
                let taken = put_mention(
                    &mut words,
                    &mut images,
                    cwd,
                    canonical_cwd,
                    &tokens[i],
                    &path,
                    &facts[used],
                );
                any = any || taken;
                used += 1;
            },
            None => {
                text::put(&mut words, tokens[i].dup());
            },
        }
        i += 1;
    }
    assert(view.take(view.len() as int) =~= view);
    proof {
        lemma_plain_words_take_none(cwd@, base, view, facts.deep_view());
    }
    if !any {
        return (message.to_owned(), images);
    }
    (text::join(words.as_slice(), " "), images)
}

proof fn lemma_plain_words_take_none(
    cwd: Seq<char>,
    canonical_cwd: Option<Seq<char>>,
    words: Seq<Seq<char>>,
    facts: Seq<FactView>,
)
    ensures
        mentioned(words).len() == 0 ==> !takes_files(cwd, canonical_cwd, words, facts),
    decreases words.len(),
{
    if words.len() > 0 {
        lemma_plain_words_take_none(cwd, canonical_cwd, words.drop_last(), facts);
    }
}

proof fn lemma_mentioned_grows(words: Seq<Seq<char>>, n: int)
    requires
        0 <= n <= words.len(),
    ensures
        mentioned(words.take(n)).len() <= mentioned(words).len(),
    decreases words.len(),
{
    if n == words.len() {
        assert(words.take(n) =~= words);
    } else {
        lemma_mentioned_grows(words.drop_last(), n);
        assert(words.drop_last().take(n) =~= words.take(n));
    }
}

/// A file that lies outside the working directory is neither shown nor attached:
/// the word that mentions it stays.
pub proof fn law_outside_files_stay_mentioned(
    done: Inlined,
    cwd: Seq<char>,
    canonical_cwd: Seq<char>,
    word: Seq<char>,
    path: Seq<char>,
    fact: FactView,
)
    requires
        fact.canonical is Some,
        !paths::components(canonical_cwd).is_prefix_of(paths::components(fact.canonical->0)),
    ensures
        with_mention(done, cwd, Some(canonical_cwd), word, path, fact) == (Inlined {
            words: done.words.push(word),
            images: done.images,
        }),
{
}

/// Words of which no file is taken stay as they are, and have no images.
pub proof fn law_plain_messages_keep_their_words(
    cwd: Seq<char>,
    canonical_cwd: Option<Seq<char>>,
    words: Seq<Seq<char>>,
    facts: Seq<FactView>,
)
    requires
        !takes_files(cwd, canonical_cwd, words, facts),
    ensures
        inlined(cwd, canonical_cwd, words, facts) == (Inlined { words, images: seq![] }),
    decreases words.len(),
{
    if words.len() > 0 {
        law_plain_messages_keep_their_words(cwd, canonical_cwd, words.drop_last(), facts);
        assert(words.drop_last().push(words.last()) =~= words);
    } else {
        assert(words =~= seq![]);
    }
}

} // verus!
