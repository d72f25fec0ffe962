//! The request line and the response of the little web server that feeds the
//! pool: which page a request line asks for, and the text that is sent back.

use vstd::prelude::*;
use vstd::string::*;

verus! {

/// Whether `c` separates the words of a request line: the characters with
/// the Unicode property `White_Space`.
pub open spec fn is_space(c: char) -> bool {
    let n = c as u32;
    ||| 0x09 <= n <= 0x0D
    ||| n == 0x20
    ||| n == 0x85
    ||| n == 0xA0
    ||| n == 0x1680
    ||| 0x2000 <= n <= 0x200A
    ||| n == 0x2028
    ||| n == 0x2029
    ||| n == 0x202F
    ||| n == 0x205F
    ||| n == 0x3000
}

/// The first position at or after `from` that holds no separator, or the
/// length of `s` if only separators follow.
pub open spec fn word_start(s: Seq<char>, from: int) -> int
    decreases s.len() - from,
{
    if from >= s.len() {
        s.len() as int
    } else if is_space(s[from]) {
        word_start(s, from + 1)
    } else {
        from
    }
}

/// The first position at or after `from` that holds a separator, or the
/// length of `s` if none follows.
pub open spec fn word_end(s: Seq<char>, from: int) -> int
    decreases s.len() - from,
{
    if from >= s.len() {
        s.len() as int
    } else if is_space(s[from]) {
        from
    } else {
        word_end(s, from + 1)
    }
}

/// The words of `s` that begin at or after `from`: the longest runs of
/// characters that are no separators, in the order in which they stand.
pub open spec fn words_from(s: Seq<char>, from: int) -> Seq<Seq<char>>
    decreases s.len() - from,
{
    let start = word_start(s, from);
    if 0 <= from && start < s.len() {
        proof {
            lemma_word_start(s, from);
            lemma_word_end(s, start);
        }
        seq![s.subrange(start, word_end(s, start))] + words_from(s, word_end(s, start))
    } else {
        Seq::empty()
    }
}

/// The words of `s`.
pub open spec fn words(s: Seq<char>) -> Seq<Seq<char>> {
    words_from(s, 0)
}

/// Where the next word starts: not before `from`, behind separators only, and
/// at a character that is none.
pub proof fn lemma_word_start(s: Seq<char>, from: int)
    requires
        0 <= from,
    ensures
        from <= word_start(s, from) || word_start(s, from) == s.len(),
        word_start(s, from) <= s.len(),
        word_start(s, from) < s.len() ==> !is_space(s[word_start(s, from)]),
        forall|i: int| from <= i < word_start(s, from) ==> is_space(#[trigger] s[i]),
    decreases s.len() - from,
{
    if from < s.len() && is_space(s[from]) {
        lemma_word_start(s, from + 1);
    }
}

/// Where a word ends: behind characters that are no separators, and at a
/// separator or at the end. A word that starts at `from` is not empty.
pub proof fn lemma_word_end(s: Seq<char>, from: int)
    requires
        0 <= from,
    ensures
        from <= word_end(s, from) || word_end(s, from) == s.len(),
        word_end(s, from) <= s.len(),
        word_end(s, from) < s.len() ==> is_space(s[word_end(s, from)]),
        forall|i: int| from <= i < word_end(s, from) ==> !is_space(#[trigger] s[i]),
        from < s.len() && !is_space(s[from]) ==> from < word_end(s, from),
    decreases s.len() - from,
{
    if from < s.len() && !is_space(s[from]) {
        lemma_word_end(s, from + 1);
    }
}

/// No word is empty, and no word holds a separator.
pub proof fn lemma_words_hold_no_space(s: Seq<char>, from: int)
    requires
        0 <= from,
    ensures
        forall|k: int|
            0 <= k < words_from(s, from).len() ==> {
                let word = #[trigger] words_from(s, from)[k];
                word.len() > 0 && forall|i: int| 0 <= i < word.len() ==> !is_space(#[trigger] word[i])
            },
    decreases s.len() - from,
{
    lemma_word_start(s, from);
    let start = word_start(s, from);
    if start < s.len() {
        let end = word_end(s, start);
        lemma_word_end(s, start);
        lemma_words_hold_no_space(s, end);
        assert forall|k: int| 0 <= k < words_from(s, from).len() implies {
            let word = #[trigger] words_from(s, from)[k];
            word.len() > 0 && forall|i: int| 0 <= i < word.len() ==> !is_space(#[trigger] word[i])
        } by {
            if k > 0 {
                assert(words_from(s, from)[k] == words_from(s, end)[k - 1]);
            }
        }
    }
}

/// The target of a request line, where the line is a request this server
/// answers: it has at least three words and the first of them is `GET`. The
/// target is the second word.
pub open spec fn target_of(line: Seq<char>) -> Option<Seq<char>> {
    if words(line).len() >= 3 && words(line)[0] == seq!['G', 'E', 'T'] {
        Some(words(line)[1])
    } else {
        None
    }
}

/// Whether `c` separates words.
pub fn separates(c: char) -> (space: bool)
    ensures
        space == is_space(c),
{
    let n: u32 = c as u32;
    (0x09 <= n && n <= 0x0D) || n == 0x20 || n == 0x85 || n == 0xA0 || n == 0x1680 || (0x2000 <= n
        && n <= 0x200A) || n == 0x2028 || n == 0x2029 || n == 0x202F || n == 0x205F || n == 0x3000
}

/// The characters of `text`, in order.
fn chars_of(text: &str) -> (chars: Vec<char>)
    ensures
        chars@ == text@,
{
    broadcast use group_string_axioms;

    let mut chars: Vec<char> = Vec::new();
    for c in it: text.chars()
        invariant
            it.seq() == text@,
            chars@ == it.seq().take(it.index()),
    {
        chars.push(c);
    }
    chars
}

/// The position of the first character at or after `from` that is no
/// separator.
fn skip_spaces(s: &Vec<char>, from: usize) -> (at: usize)
    requires
        from <= s@.len(),
    ensures
        at == word_start(s@, from as int),
        from <= at <= s@.len(),
{
    let mut at: usize = from;
    while at < s.len() && separates(s[at])
        invariant
            from <= at <= s@.len(),
            word_start(s@, from as int) == word_start(s@, at as int),
        decreases s@.len() - at,
    {
        at = at + 1;
    }
    at
}

/// The position of the first separator at or after `from`.
fn skip_word(s: &Vec<char>, from: usize) -> (at: usize)
    requires
        from <= s@.len(),
    ensures
        at == word_end(s@, from as int),
        from <= at <= s@.len(),
{
    let mut at: usize = from;
    while at < s.len() && !separates(s[at])
        invariant
            from <= at <= s@.len(),
            word_end(s@, from as int) == word_end(s@, at as int),
        decreases s@.len() - at,
    {
        at = at + 1;
    }
    at
}

/// The words from `from` on are the first of them, where there is one,
/// followed by the words behind it.
proof fn lemma_words_from(s: Seq<char>, from: int)
    requires
        0 <= from,
    ensures
        word_start(s, from) >= s.len() ==> words_from(s, from).len() == 0,
        word_start(s, from) < s.len() ==> ({
            let start = word_start(s, from);
            let end = word_end(s, start);
            &&& from <= start < end <= s.len()
            &&& words_from(s, from).len() == 1 + words_from(s, end).len()
            &&& words_from(s, from)[0] == s.subrange(start, end)
            &&& forall|k: int|
                0 <= k < words_from(s, end).len() ==> #[trigger] words_from(s, from)[k + 1]
                    == words_from(s, end)[k]
        }),
{
    lemma_word_start(s, from);
    if word_start(s, from) < s.len() {
        lemma_word_end(s, word_start(s, from));
    }
}

/// The target that a request line asks for, if the line is a `GET` request:
/// the second of at least three words of which the first is `GET`. Any other
/// line gets no answer.
pub fn request_target(line: &str) -> (target: Option<&str>)
    ensures
        target matches Some(uri) ==> target_of(line@) == Some(uri@),
        target is None ==> target_of(line@) is None,
{
    let chars = chars_of(line);
    let first: usize = skip_spaces(&chars, 0);
    let first_end: usize = skip_word(&chars, first);
    let second: usize = skip_spaces(&chars, first_end);
    let second_end: usize = skip_word(&chars, second);
    let third: usize = skip_spaces(&chars, second_end);
    proof {
        let s = chars@;
        lemma_words_from(s, 0);
        lemma_words_from(s, first_end as int);
        lemma_words_from(s, second_end as int);
        if first < s.len() && second < s.len() {
            assert(words_from(s, 0)[0int + 1] == words_from(s, first_end as int)[0]);
        }
    }
    if third < chars.len() && first_end - first == 3 && chars[first] == 'G' && chars[first + 1]
        == 'E' && chars[first + 2] == 'T' {
        assert(chars@.subrange(first as int, first_end as int) =~= seq!['G', 'E', 'T']);
        Some(line.substring_char(second, second_end))
    } else {
        assert(third < chars@.len() ==> chars@.subrange(first as int, first_end as int) != seq![
            'G',
            'E',
            'T',
        ]) by {
            let word = chars@.subrange(first as int, first_end as int);
            if third < chars@.len() && word == seq!['G', 'E', 'T'] {
                assert(word.len() == 3);
                assert(word[0] == 'G' && word[1] == 'E' && word[2] == 'T');
            }
        }
        None
    }
}

/// How long the slow greeting makes its reader wait, in seconds.
pub const SLEEP_SECS: u64 = 10;

/// What the server does for a request target.
#[derive(Debug, PartialEq, Eq)]
pub enum Route {
    /// Send the greeting page.
    Hello,
    /// Sleep for `SLEEP_SECS` seconds, then send the greeting page.
    SlowHello,
    /// Send the file at `path` if it exists, and the not-found page if not.
    File { path: String },
}

/// The two ways an answer can begin.
#[derive(Clone, Copy, Debug, PartialEq, Eq, Structural)]
pub enum Status {
    Okay,
    NotFound,
}

/// An answer before its page is read: the status, and where the page lies.
#[derive(Debug, PartialEq, Eq)]
pub struct Answer {
    pub status: Status,
    pub path: String,
}

/// The target that stands for the greeting page.
pub open spec fn root_target() -> Seq<char> {
    seq!['/']
}

/// The target that stands for the slow greeting page.
pub open spec fn sleep_target() -> Seq<char> {
    seq!['/', 's', 'l', 'e', 'e', 'p']
}

/// Where the greeting page lies.
pub open spec fn hello_path() -> Seq<char> {
    seq!['h', 't', 'm', 'l', '/', 'h', 'e', 'l', 'l', 'o', '.', 'h', 't', 'm', 'l']
}

/// Where the not-found page lies.
pub open spec fn not_found_path() -> Seq<char> {
    seq!['h', 't', 'm', 'l', '/', '4', '0', '4', '.', 'h', 't', 'm', 'l']
}

/// Where the page of a target lies: the target between `html/` and `.html`.
pub open spec fn page_path(uri: Seq<char>) -> Seq<char> {
    seq!['h', 't', 'm', 'l', '/'] + uri + seq!['.', 'h', 't', 'm', 'l']
}

/// The status line of each status. The reason of `Okay` is spelled with a
/// zero, `0K`.
pub open spec fn status_text(status: Status) -> Seq<char> {
    match status {
        Status::Okay => seq!['H', 'T', 'T', 'P', '/', '1', '.', '1', ' ', '2', '0', '0', ' ', '0', 'K'],
        Status::NotFound => seq![
            'H', 'T', 'T', 'P', '/', '1', '.', '1', ' ', '4', '0', '4', ' ', 'N', 'O', 'T', ' ',
            'F', 'O', 'U', 'N', 'D',
        ],
    }
}

/// The character of a decimal digit.
pub open spec fn digit(d: nat) -> char {
    seq!['0', '1', '2', '3', '4', '5', '6', '7', '8', '9'][d as int]
}

/// A number in decimal, without leading zeros.
pub open spec fn decimal(n: nat) -> Seq<char>
    decreases n,
{
    if n < 10 {
        seq![digit(n)]
    } else {
        decimal(n / 10).push(digit(n % 10))
    }
}

/// The text of a response: the status line, the length of the page in
/// bytes, an empty line, and the page.
pub open spec fn response_text(status_line: Seq<char>, length: nat, contents: Seq<char>) -> Seq<
    char,
> {
    status_line + seq!['\r', '\n'] + seq![
        'C', 'o', 'n', 't', 'e', 'n', 't', '-', 'L', 'e', 'n', 'g', 't', 'h', ':', ' ',
    ] + decimal(length) + seq!['\r', '\n', '\r', '\n'] + contents
}

/// Whether two texts hold the same characters.
fn same_text(a: &str, b: &str) -> (same: bool)
    ensures
        same == (a@ == b@),
{
    String::from_str(a) == String::from_str(b)
}

/// Chooses what to do for a request target: `/` is the greeting, `/sleep`
/// the slow greeting, and every other target names a file under `html/`.
pub fn route(uri: &str) -> (route: Route)
    ensures
        uri@ == root_target() ==> route == Route::Hello,
        uri@ == sleep_target() ==> route == Route::SlowHello,
        uri@ != root_target() && uri@ != sleep_target() ==> (route matches Route::File { path }
            && path@ == page_path(uri@)),
{
    proof {
        reveal_strlit("/");
        reveal_strlit("/sleep");
        reveal_strlit("html/");
        reveal_strlit(".html");
    }
    if same_text(uri, "/") {
        assert("/"@ =~= root_target());
        Route::Hello
    } else if same_text(uri, "/sleep") {
        assert("/sleep"@ =~= sleep_target());
        Route::SlowHello
    } else {
        assert("/"@ =~= root_target());
        assert("/sleep"@ =~= sleep_target());
        let path = String::from_str("html/").concat(uri).concat(".html");
        assert(path@ =~= page_path(uri@));
        Route::File { path }
    }
}

/// The answer for a route. `found` says whether the file of a `File` route
/// exists; the greetings do not ask.
pub fn answer(route: Route, found: bool) -> (answer: Answer)
    ensures
        match route {
            Route::Hello | Route::SlowHello => answer.status == Status::Okay && answer.path@
                == hello_path(),
            Route::File { path } => if found {
                answer.status == Status::Okay && answer.path@ == path@
            } else {
                answer.status == Status::NotFound && answer.path@ == not_found_path()
            },
        },
{
    proof {
        reveal_strlit("html/hello.html");
        reveal_strlit("html/404.html");
    }
    match route {
        Route::Hello | Route::SlowHello => {
            let path = String::from_str("html/hello.html");
            assert(path@ =~= hello_path());
            Answer { status: Status::Okay, path }
        },
        Route::File { path } => {
            if found {
                Answer { status: Status::Okay, path }
            } else {
                let path = String::from_str("html/404.html");
                assert(path@ =~= not_found_path());
                Answer { status: Status::NotFound, path }
            }
        },
    }
}

/// The status line of `status`.
pub fn status_line(status: Status) -> (line: &'static str)
    ensures
        line@ == status_text(status),
{
    proof {
        reveal_strlit("HTTP/1.1 200 0K");
        reveal_strlit("HTTP/1.1 404 NOT FOUND");
    }
    match status {
        Status::Okay => {
            let line = "HTTP/1.1 200 0K";
            assert(line@ =~= status_text(Status::Okay));
            line
        },
        Status::NotFound => {
            let line = "HTTP/1.1 404 NOT FOUND";
            assert(line@ =~= status_text(Status::NotFound));
            line
        },
    }
}

/// The text of one decimal digit.
fn digit_text(d: usize) -> (text: &'static str)
    requires
        d < 10,
    ensures
        text@ == seq![digit(d as nat)],
{
    proof {
        reveal_strlit("0");
        reveal_strlit("1");
        reveal_strlit("2");
        reveal_strlit("3");
        reveal_strlit("4");
        reveal_strlit("5");
        reveal_strlit("6");
        reveal_strlit("7");
        reveal_strlit("8");
        reveal_strlit("9");
    }
    let text = if d == 0 {
        "0"
    } else if d == 1 {
        "1"
    } else if d == 2 {
        "2"
    } else if d == 3 {
        "3"
    } else if d == 4 {
        "4"
    } else if d == 5 {
        "5"
    } else if d == 6 {
        "6"
    } else if d == 7 {
        "7"
    } else if d == 8 {
        "8"
    } else {
        "9"
    };
    assert(text@ =~= seq![digit(d as nat)]);
    text
}

/// Writes `n` in decimal behind what `out` holds.
fn push_decimal(out: &mut String, n: usize)
    ensures
        final(out)@ == old(out)@ + decimal(n as nat),
    decreases n,
{
    if n >= 10 {
        push_decimal(out, n / 10);
    }
    out.append(digit_text(n % 10));
}

/// Puts a response together: the status line, a `Content-Length` header
/// with the length of `contents` in bytes, an empty line, and `contents`.
pub fn response(status_line: &str, contents: &str) -> (text: String)
    ensures
        text@ == response_text(status_line@, contents.spec_bytes().len(), contents@),
{
    proof {
        reveal_strlit("\r\nContent-Length: ");
        reveal_strlit("\r\n\r\n");
    }
    let length: usize = contents.as_bytes().len();
    let mut text = String::from_str(status_line);
    text.append("\r\nContent-Length: ");
    assert(text@ =~= status_line@ + seq!['\r', '\n'] + seq![
        'C', 'o', 'n', 't', 'e', 'n', 't', '-', 'L', 'e', 'n', 'g', 't', 'h', ':', ' ',
    ]);
    push_decimal(&mut text, length);
    text.append("\r\n\r\n");
    text.append(contents);
    assert(text@ =~= response_text(status_line@, contents.spec_bytes().len(), contents@));
    text
}

} // verus!
