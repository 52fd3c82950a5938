use vstd::prelude::*;

verus! {

/// Whether `regex::Regex::new` accepts `pattern` (its syntax, within the default limits).
pub uninterp spec fn regex_compiles(pattern: Seq<char>) -> bool;

/// Whether the regular expression `pattern` matches somewhere in `text`.
pub uninterp spec fn regex_is_match(pattern: Seq<char>, text: Seq<char>) -> bool;

/// The text that `String::from_utf8_lossy` decodes from `bytes`.
pub uninterp spec fn lossy_text(bytes: Seq<u8>) -> Seq<char>;

/// Whether `c` has the Unicode White_Space property.
pub open spec fn is_white_space(c: char) -> bool {
    let v = c as u32;
    ||| 0x9 <= v <= 0xd
    ||| v == 0x20
    ||| v == 0x85
    ||| v == 0xa0
    ||| v == 0x1680
    ||| 0x2000 <= v <= 0x200a
    ||| v == 0x2028
    ||| v == 0x2029
    ||| v == 0x202f
    ||| v == 0x205f
    ||| v == 0x3000
}

/// `text` without its trailing White_Space characters: the longest prefix
/// that is empty or ends in a character that is not White_Space, such that
/// every character after it is White_Space.
pub open spec fn trimmed_end(text: Seq<char>) -> Seq<char>
    decreases text.len(),
{
    if text.len() > 0 && is_white_space(text.last()) {
        trimmed_end(text.drop_last())
    } else {
        text
    }
}

#[verifier::external_type_specification]
#[verifier::external_body]
pub struct ExRegex(regex::Regex);

#[verifier::external_type_specification]
#[verifier::external_body]
pub struct ExRegexError(regex::Error);

/// Relies on `regex::Regex::new`: it compiles `pattern`, or reports why not,
/// depending on the pattern alone.
#[verifier::external_body]
fn compile(pattern: &str) -> (r: Result<regex::Regex, regex::Error>)
    ensures
        r is Ok <==> regex_compiles(pattern@),
{
    regex::Regex::new(pattern)
}

/// Relies on `regex::Regex::is_match` on the expression that `Prompt::new`
/// compiled from `prompt.pattern()`: true when it matches anywhere in `text`.
#[verifier::external_body]
fn search(prompt: &Prompt, text: &str) -> (r: bool)
    ensures
        r == regex_is_match(prompt.pattern(), text@),
{
    prompt.re.is_match(text)
}

/// Relies on `String::from_utf8_lossy`: invalid sequences are replaced, never fatal.
#[verifier::external_body]
fn decode_lossy(bytes: &[u8]) -> (r: String)
    ensures
        r@ == lossy_text(bytes@),
{
    String::from_utf8_lossy(bytes).into_owned()
}

/// Relies on `str::trim_end`: the text without its trailing characters of
/// the Unicode White_Space property.
#[verifier::external_body]
fn trim_end(text: &String) -> (r: &str)
    ensures
        r@ == trimmed_end(text@),
{
    text.trim_end()
}

/// Whether a chunk of device output shows the prompt `pattern`: the chunk is
/// decoded leniently, its trailing whitespace dropped, and the pattern searched for.
pub open spec fn shows_prompt(pattern: Seq<char>, chunk: Seq<u8>) -> bool {
    regex_is_match(pattern, trimmed_end(lossy_text(chunk)))
}

/// A compiled prompt pattern: a regular expression that matches the output a
/// device prints when it is ready for the next command.
pub struct Prompt {
    source: String,
    re: regex::Regex,
}

impl Prompt {
    /// The source text of the pattern.
    pub closed spec fn pattern(&self) -> Seq<char> {
        self.source@
    }

    /// Compiles `pattern`; fails exactly when the regular expression syntax rejects it.
    pub fn new(pattern: &str) -> (r: Result<Prompt, regex::Error>)
        ensures
            r is Ok <==> regex_compiles(pattern@),
            r matches Ok(p) ==> p.pattern() == pattern@,
    {
        match compile(pattern) {
            Ok(re) => Ok(Prompt { source: pattern.to_owned(), re }),
            Err(e) => Err(e),
        }
    }

    /// The source text of the pattern.
    pub fn as_str(&self) -> (r: &str)
        ensures
            r@ == self.pattern(),
    {
        self.source.as_str()
    }

    /// Whether `chunk`, decoded leniently and right-trimmed, matches the pattern.
    pub fn matches_chunk(&self, chunk: &[u8]) -> (r: bool)
        ensures
            r == shows_prompt(self.pattern(), chunk@),
    {
        let text = decode_lossy(chunk);
        let trimmed = trim_end(&text);
        search(self, trimmed)
    }
}

} // verus!
