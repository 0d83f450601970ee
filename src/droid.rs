//! Persistence of the credential environment variable as a marked block of
//! `export` text in shell profile files, applied and removed idempotently.

use vstd::prelude::*;
use vstd::string::{StrSliceExecFns, StringExecFns};

verus! {

/// The line that opens the managed block.
pub open spec fn block_start() -> Seq<char> {
    "# CC-Switch Droid Config Start"@
}

/// The line that closes the managed block.
pub open spec fn block_end() -> Seq<char> {
    "# CC-Switch Droid Config End"@
}

/// The name of the credential environment variable.
pub open spec fn var_name() -> Seq<char> {
    "Factory_API_Key"@
}

/// Whether `n` occurs in `h`.
pub open spec fn has_infix(h: Seq<char>, n: Seq<char>) -> bool {
    exists|i: int| 0 <= i && i + n.len() <= h.len() && #[trigger] h.subrange(i, i + n.len()) == n
}

/// The managed block that exports `value` as `name`.
pub open spec fn env_block(name: Seq<char>, value: Seq<char>) -> Seq<char> {
    block_start() + "\n"@ + "export "@ + name + "=\""@ + value + "\""@ + "\n"@ + block_end()
}

/// Characters with the Unicode White_Space property.
pub open spec fn is_white_space(c: char) -> bool {
    let n = c as u32;
    ||| 0x9 <= n <= 0xd
    ||| n == 0x20
    ||| n == 0x85
    ||| n == 0xa0
    ||| n == 0x1680
    ||| 0x2000 <= n <= 0x200a
    ||| n == 0x2028
    ||| n == 0x2029
    ||| n == 0x202f
    ||| n == 0x205f
    ||| n == 0x3000
}

/// The text with trailing White_Space characters removed.
pub open spec fn trimmed_end(s: Seq<char>) -> Seq<char>
    decreases s.len(),
{
    if s.len() > 0 && is_white_space(s.last()) {
        trimmed_end(s.drop_last())
    } else {
        s
    }
}

/// `p` occurs in `s` at index `i`.
pub open spec fn at(s: Seq<char>, i: int, p: Seq<char>) -> bool {
    0 <= i && i + p.len() <= s.len() && s.subrange(i, i + p.len()) == p
}

/// A block can open at `i`: `start` sits there and `end` occurs after it.
pub open spec fn opens_at(s: Seq<char>, i: int, start: Seq<char>, end: Seq<char>) -> bool {
    at(s, i, start) && exists|j: int| j >= i + start.len() && #[trigger] at(s, j, end)
}

pub open spec fn is_first_open(s: Seq<char>, start: Seq<char>, end: Seq<char>, i: int) -> bool {
    opens_at(s, i, start, end) && forall|k: int| 0 <= k < i ==> !#[trigger] opens_at(s, k, start, end)
}

/// The leftmost index at which a block opens, or -1.
pub open spec fn first_open(s: Seq<char>, start: Seq<char>, end: Seq<char>) -> int {
    if exists|i: int| is_first_open(s, start, end, i) {
        choose|i: int| is_first_open(s, start, end, i)
    } else {
        -1
    }
}

/// The nearest occurrence of `end` at or after `from`.
pub open spec fn first_close(s: Seq<char>, from: int, end: Seq<char>) -> int {
    choose|j: int| j >= from && at(s, j, end) && forall|k: int| from <= k < j ==> !#[trigger] at(s, k, end)
}

pub open spec fn all_newlines(s: Seq<char>, a: int, b: int) -> bool {
    forall|m: int| a <= m < b ==> s[m] == '\n'
}

/// Where the run of line breaks that ends at `i` begins.
pub open spec fn run_start(s: Seq<char>, i: int) -> int {
    choose|q: int| 0 <= q <= i && all_newlines(s, q, i) && (q == 0 || s[q - 1] != '\n')
}

/// Where the run of line breaks that begins at `i` ends.
pub open spec fn run_end(s: Seq<char>, i: int) -> int {
    choose|k: int| i <= k <= s.len() && all_newlines(s, i, k) && (k == s.len() || s[k] != '\n')
}

/// The text with its leftmost span from `start` to the nearest following
/// `end` replaced by `rep`; unchanged when there is no such span.
pub open spec fn replace_first_block(s: Seq<char>, start: Seq<char>, end: Seq<char>, rep: Seq<char>) -> Seq<char> {
    let i = first_open(s, start, end);
    if i < 0 {
        s
    } else {
        let j = first_close(s, i + start.len(), end);
        s.subrange(0, i) + rep + s.subrange(j + end.len(), s.len() as int)
    }
}

/// The text with its leftmost span from `start` to the nearest following
/// `end`, together with the line breaks directly around it, removed;
/// unchanged when there is no such span.
pub open spec fn remove_first_block(s: Seq<char>, start: Seq<char>, end: Seq<char>) -> Seq<char> {
    let i = first_open(s, start, end);
    if i < 0 {
        s
    } else {
        let j = first_close(s, i + start.len(), end);
        s.subrange(0, run_start(s, i)) + s.subrange(run_end(s, j + end.len()), s.len() as int)
    }
}

/// Whether the regex built to replace a block between the two literal markers compiles.
pub uninterp spec fn block_pattern_builds(start: Seq<char>, end: Seq<char>) -> bool;

/// Whether the regex built to remove a block (with its surrounding line
/// breaks) between the two literal markers compiles.
pub uninterp spec fn gap_pattern_builds(start: Seq<char>, end: Seq<char>) -> bool;

/// Relies on str::contains with a string pattern: true exactly when `n`
/// occurs in `h` as a contiguous substring.
#[verifier::external_body]
fn str_contains(h: &str, n: &str) -> (r: bool)
    ensures
        r == has_infix(h@, n@),
{
    h.contains(n)
}

/// The characters of `a` followed by those of `b`.
pub(crate) fn concat(a: &str, b: &str) -> (r: String)
    ensures
        r@ == a@ + b@,
{
    <String as StringExecFns>::from_str(a).concat(b)
}

/// Whether the last character is `/`.
fn ends_with_slash(s: &str) -> (r: bool)
    ensures
        r == (s@.len() > 0 && s@.last() == '/'),
{
    let n = s.unicode_len();
    if n == 0 {
        false
    } else {
        s.get_char(n - 1) == '/'
    }
}

/// Relies on str::trim_end, which removes trailing characters with the
/// Unicode White_Space property.
#[verifier::external_body]
fn trim_end(s: &str) -> (r: String)
    ensures
        r@ == trimmed_end(s@),
{
    s.trim_end().to_owned()
}

/// Relies on regex::escape, Regex::new and Regex::replace with NoExpand: the
/// pattern `(?s)` start `.*?` end (markers taken literally) has its
/// leftmost-first match replaced once by `rep`, taken literally; whether the
/// pattern compiles depends on the markers alone.
#[verifier::external_body]
fn replace_block(text: &str, start: &str, end: &str, rep: &str) -> (r: Option<String>)
    ensures
        r is Some == block_pattern_builds(start@, end@),
        r matches Some(t) ==> t@ == replace_first_block(text@, start@, end@, rep@),
{
    let pat = format!(r"(?s){}.*?{}", regex::escape(start), regex::escape(end));
    match regex::Regex::new(&pat) {
        Ok(re) => Some(re.replace(text, regex::NoExpand(rep)).into_owned()),
        Err(_) => None,
    }
}

/// Relies on regex::escape, Regex::new and Regex::replace: the pattern
/// `(?s)\n*` start `.*?` end `\n*` (markers taken literally) has its
/// leftmost-first match removed once. With `start` not beginning with a line
/// break, that match begins at the run of line breaks before the first
/// opening marker that has a closing marker after it.
#[verifier::external_body]
fn remove_block(text: &str, start: &str, end: &str) -> (r: Option<String>)
    requires
        start@.len() > 0,
        start@[0] != '\n',
    ensures
        r is Some == gap_pattern_builds(start@, end@),
        r matches Some(t) ==> t@ == remove_first_block(text@, start@, end@),
{
    let pat = format!(r"(?s)\n*{}.*?{}\n*", regex::escape(start), regex::escape(end));
    match regex::Regex::new(&pat) {
        Ok(re) => Some(re.replace(text, "").into_owned()),
        Err(_) => None,
    }
}

/// The shell profile text after exporting `value` under `name`: an existing
/// managed block is replaced, otherwise a new block is appended after the
/// text with its trailing whitespace removed.
pub open spec fn with_env_block(text: Seq<char>, name: Seq<char>, value: Seq<char>) -> Seq<char> {
    let block = env_block(name, value);
    if has_infix(text, block_start()) {
        if block_pattern_builds(block_start(), block_end()) {
            replace_first_block(text, block_start(), block_end(), block)
        } else {
            text
        }
    } else {
        trimmed_end(text) + "\n\n"@ + block + "\n"@
    }
}

/// The shell profile text with the managed block removed.
pub open spec fn without_env_block(text: Seq<char>) -> Seq<char> {
    if has_infix(text, block_start()) {
        if gap_pattern_builds(block_start(), block_end()) {
            remove_first_block(text, block_start(), block_end())
        } else {
            text
        }
    } else {
        text
    }
}

/// The shell profile text that exports `api_key` as the credential
/// environment variable.
pub fn set_factory_api_key_env(profile_text: &str, api_key: &str) -> (r: String)
    ensures
        r@ == with_env_block(profile_text@, var_name(), api_key@),
{
    let start = "# CC-Switch Droid Config Start";
    let end = "# CC-Switch Droid Config End";
    let head = concat(start, "\nexport Factory_API_Key=\"");
    let with_key = concat(head.as_str(), api_key);
    let tail = concat("\"\n", end);
    let block = concat(with_key.as_str(), tail.as_str());
    proof {
        reveal_strlit("\nexport Factory_API_Key=\"");
        reveal_strlit("\"\n");
        reveal_strlit("\n");
        reveal_strlit("export ");
        reveal_strlit("=\"");
        reveal_strlit("\"");
        reveal_strlit("Factory_API_Key");
        assert(block@ =~= env_block(var_name(), api_key@));
    }
    if str_contains(profile_text, start) {
        match replace_block(profile_text, start, end, block.as_str()) {
            Some(t) => t,
            None => profile_text.to_owned(),
        }
    } else {
        let trimmed = trim_end(profile_text);
        let a = concat(trimmed.as_str(), "\n\n");
        let b = concat(a.as_str(), block.as_str());
        concat(b.as_str(), "\n")
    }
}

/// The shell profile text with the credential environment variable's
/// managed block removed; text without a block is returned unchanged.
pub fn clear_factory_api_key_env(profile_text: &str) -> (r: String)
    ensures
        r@ == without_env_block(profile_text@),
{
    let start = "# CC-Switch Droid Config Start";
    let end = "# CC-Switch Droid Config End";
    proof {
        reveal_strlit("# CC-Switch Droid Config Start");
    }
    if str_contains(profile_text, start) {
        match remove_block(profile_text, start, end) {
            Some(t) => t,
            None => profile_text.to_owned(),
        }
    } else {
        profile_text.to_owned()
    }
}

/// The path of `file` inside the directory `dir`.
pub open spec fn path_in(dir: Seq<char>, file: Seq<char>) -> Seq<char> {
    if dir.len() == 0 || dir.last() == '/' {
        dir + file
    } else {
        dir + "/"@ + file
    }
}

/// The path of the stored API key file inside the Droid configuration directory.
pub fn get_droid_api_key_path(droid_dir: &str) -> (r: String)
    ensures
        r@ == path_in(droid_dir@, "api_key.txt"@),
{
    if droid_dir.is_empty() || ends_with_slash(droid_dir) {
        concat(droid_dir, "api_key.txt")
    } else {
        let d = concat(droid_dir, "/");
        concat(d.as_str(), "api_key.txt")
    }
}

} // verus!
