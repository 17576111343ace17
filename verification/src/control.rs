//! The control channel: the requests an operator can send, one per line,
//! and what the daemon does for each.
//!
//! A line is `stop`, `reload` with or without an entry's name, or `log`
//! with or without an entry's name and with or without `+` and an event
//! number, which asks for the events after that number:
//! `log`, `log web`, `log +17`, `log web +17`.

use vstd::prelude::*;
use vstd::slice::slice_subrange;
use crate::events::ControlEvent;
use crate::events::Source;
use crate::scheduler::Dispatch;
use crate::text::all_digits;
use crate::text::chars_of;
use crate::text::decimal;
use crate::text::parse_decimal;
use crate::text::same_text;

verus! {

/// A request on the control channel.
#[derive(Clone, Debug, PartialEq, Eq)]
pub enum ControlRequest {
    /// Evaluate one entry, or all, anew.
    Reload(Option<String>),
    /// Shut down.
    Stop,
    /// Show the events of one entry, or of all sources, after an event
    /// number, or from the oldest.
    Log(Option<String>, Option<u64>),
}

/// A request with its names as sequences of characters.
pub enum Wanted {
    Reload(Option<Seq<char>>),
    Stop,
    Log(Option<Seq<char>>, Option<u64>),
}

/// The characters of an optional name.
pub open spec fn name_view(name: Option<String>) -> Option<Seq<char>> {
    match name {
        Some(n) => Some(n@),
        None => None,
    }
}

impl View for ControlRequest {
    type V = Wanted;

    open spec fn view(&self) -> Wanted {
        match *self {
            ControlRequest::Reload(name) => Wanted::Reload(name_view(name)),
            ControlRequest::Stop => Wanted::Stop,
            ControlRequest::Log(name, since) => Wanted::Log(name_view(name), since),
        }
    }
}

/// Whether `s` can name an entry on a request line: it is not empty, holds
/// no space and does not begin with `+`.
pub open spec fn is_name(s: Seq<char>) -> bool {
    &&& s.len() > 0
    &&& s[0] != '+'
    &&& forall|i: int| 0 <= i < s.len() ==> #[trigger] s[i] != ' '
}

/// The event number that `+` and decimal digits stand for.
pub open spec fn since_of(s: Seq<char>) -> Option<u64> {
    if s.len() >= 2 && s[0] == '+' && all_digits(s.skip(1)) && decimal(s.skip(1)) <= u64::MAX {
        Some(decimal(s.skip(1)) as u64)
    } else {
        None
    }
}

/// The position of the first space in `s`; the length where there is none.
pub open spec fn word_end(s: Seq<char>) -> int
    decreases s.len(),
{
    if s.len() == 0 || s[0] == ' ' {
        0
    } else {
        1 + word_end(s.drop_first())
    }
}

/// Whether `line` begins with `prefix`.
pub open spec fn has_prefix(line: Seq<char>, prefix: Seq<char>) -> bool {
    line.len() >= prefix.len() && line.take(prefix.len() as int) == prefix
}

/// What follows `log ` on a request line.
pub open spec fn log_request(args: Seq<char>) -> Option<Wanted> {
    if args.len() == 0 {
        None
    } else if args[0] == '+' {
        match since_of(args) {
            Some(n) => Some(Wanted::Log(None, Some(n))),
            None => None,
        }
    } else {
        let k = word_end(args);
        if k == 0 {
            None
        } else if k == args.len() {
            Some(Wanted::Log(Some(args), None))
        } else {
            match since_of(args.skip(k + 1)) {
                Some(n) => Some(Wanted::Log(Some(args.take(k)), Some(n))),
                None => None,
            }
        }
    }
}

/// The request that a line stands for; none where the line is no request.
pub open spec fn request_of(line: Seq<char>) -> Option<Wanted> {
    if line == "stop"@ {
        Some(Wanted::Stop)
    } else if line == "reload"@ {
        Some(Wanted::Reload(None))
    } else if line == "log"@ {
        Some(Wanted::Log(None, None))
    } else if has_prefix(line, "reload "@) {
        let name = line.skip("reload "@.len() as int);
        if is_name(name) {
            Some(Wanted::Reload(Some(name)))
        } else {
            None
        }
    } else if has_prefix(line, "log "@) {
        log_request(line.skip("log "@.len() as int))
    } else {
        None
    }
}

/// Where the text after `prefix` begins in `chars`, if `chars` begins with
/// `prefix`.
fn after_prefix(chars: &Vec<char>, prefix: &str) -> (r: Option<usize>)
    ensures
        r is Some <==> has_prefix(chars@, prefix@),
        r matches Some(at) ==> at == prefix@.len(),
{
    let p = chars_of(prefix);
    if chars.len() < p.len() {
        return None;
    }
    let mut i: usize = 0;
    while i < p.len()
        invariant
            p@ == prefix@,
            p@.len() <= chars@.len(),
            i <= p@.len(),
            forall|j: int| 0 <= j < i ==> chars@[j] == p@[j],
        decreases p@.len() - i,
    {
        if chars[i] != p[i] {
            proof {
                assert(chars@.take(p@.len() as int)[i as int] != p@[i as int]);
            }
            return None;
        }
        i = i + 1;
    }
    proof {
        assert(chars@.take(p@.len() as int) =~= p@);
    }
    Some(p.len())
}

/// The position of the first space at or after `from`; the length where
/// there is none.
fn find_space(chars: &Vec<char>, from: usize) -> (r: usize)
    requires
        from <= chars@.len(),
    ensures
        from <= r <= chars@.len(),
        r - from == word_end(chars@.skip(from as int)),
        forall|j: int| from <= j < r ==> chars@[j] != ' ',
        r < chars@.len() ==> chars@[r as int] == ' ',
{
    let mut i: usize = from;
    while i < chars.len() && chars[i] != ' '
        invariant
            from <= i <= chars@.len(),
            forall|j: int| from <= j < i ==> chars@[j] != ' ',
            word_end(chars@.skip(from as int)) == (i - from) + word_end(chars@.skip(i as int)),
        decreases chars@.len() - i,
    {
        proof {
            assert(chars@.skip(i as int).drop_first() =~= chars@.skip(i + 1));
        }
        i = i + 1;
    }
    i
}

/// Reads `+` and an event number from `chars`, starting at `from`.
fn parse_since(chars: &Vec<char>, from: usize) -> (r: Option<u64>)
    requires
        from <= chars@.len(),
    ensures
        r == since_of(chars@.skip(from as int)),
{
    let n = chars.len();
    if n - from < 2 || chars[from] != '+' {
        return None;
    }
    let digits = slice_subrange(chars.as_slice(), from + 1, n);
    proof {
        assert(digits@ =~= chars@.skip(from as int).skip(1));
    }
    parse_decimal(digits)
}

/// Reads a request line. There is a request exactly when the line stands
/// for one, and then it is that request.
pub fn parse_request(line: &str) -> (r: Option<ControlRequest>)
    ensures
        match r {
            Some(req) => request_of(line@) == Some(req@),
            None => request_of(line@) is None,
        },
{
    if same_text(line, "stop") {
        return Some(ControlRequest::Stop);
    }
    if same_text(line, "reload") {
        return Some(ControlRequest::Reload(None));
    }
    if same_text(line, "log") {
        return Some(ControlRequest::Log(None, None));
    }
    let chars = chars_of(line);
    let n = chars.len();
    match after_prefix(&chars, "reload ") {
        Some(at) => {
            let end = find_space(&chars, at);
            let ghost name = line@.skip(at as int);
            if at == n || end < n || chars[at] == '+' {
                proof {
                    if at < n && end < n {
                        assert(name[end - at] == ' ');
                    }
                }
                return None;
            }
            proof {
                assert(line@.subrange(at as int, n as int) =~= name);
            }
            let text = line.substring_char(at, n).to_owned();
            return Some(ControlRequest::Reload(Some(text)));
        },
        None => {},
    }
    match after_prefix(&chars, "log ") {
        Some(at) => {
            let ghost args = line@.skip(at as int);
            if at == n {
                return None;
            }
            if chars[at] == '+' {
                return match parse_since(&chars, at) {
                    Some(since) => Some(ControlRequest::Log(None, Some(since))),
                    None => None,
                };
            }
            let end = find_space(&chars, at);
            if end == at {
                return None;
            }
            if end == n {
                proof {
                    assert(line@.subrange(at as int, n as int) =~= args);
                }
                let text = line.substring_char(at, n).to_owned();
                return Some(ControlRequest::Log(Some(text), None));
            }
            proof {
                assert(line@.subrange(at as int, end as int) =~= args.take(end - at));
                assert(chars@.skip(end + 1) =~= args.skip(end - at + 1));
            }
            match parse_since(&chars, end + 1) {
                Some(since) => {
                    let text = line.substring_char(at, end).to_owned();
                    Some(ControlRequest::Log(Some(text), Some(since)))
                },
                None => None,
            }
        },
        None => None,
    }
}

/// The position of the first of `names` that is `name`; none where no
/// entry has that name.
pub open spec fn position_of(names: Seq<String>, name: Seq<char>) -> Option<usize>
    decreases names.len(),
{
    if names.len() == 0 {
        None
    } else {
        match position_of(names.drop_last(), name) {
            Some(at) => Some(at),
            None => if names.last()@ == name {
                Some((names.len() - 1) as usize)
            } else {
                None
            },
        }
    }
}

/// Finds an entry's position by its name.
pub fn find_entry(names: &Vec<String>, name: &str) -> (r: Option<usize>)
    ensures
        r == position_of(names@, name@),
        r matches Some(at) ==> at < names@.len() && names@[at as int]@ == name@,
{
    let mut i: usize = 0;
    while i < names.len()
        invariant
            i <= names@.len(),
            position_of(names@.take(i as int), name@) is None,
        decreases names@.len() - i,
    {
        proof {
            assert(names@.take(i + 1).drop_last() =~= names@.take(i as int));
        }
        if same_text(names[i].as_str(), name) {
            proof {
                lemma_position_kept(names@, name@, i + 1);
            }
            return Some(i);
        }
        i = i + 1;
    }
    proof {
        assert(names@.take(names@.len() as int) =~= names@);
    }
    None
}

/// A position found among the first names stays the position among all.
pub proof fn lemma_position_kept(names: Seq<String>, name: Seq<char>, k: int)
    requires
        0 <= k <= names.len(),
        position_of(names.take(k), name) is Some,
    ensures
        position_of(names, name) == position_of(names.take(k), name),
    decreases names.len() - k,
{
    if k == names.len() {
        assert(names.take(k) =~= names);
    } else {
        assert(names.take(k + 1).drop_last() =~= names.take(k));
        lemma_position_kept(names, name, k + 1);
    }
}

/// The daemon's answer to a request.
#[derive(Clone, Debug, PartialEq, Eq)]
pub enum Response {
    /// The entries asked for were evaluated; this work results.
    Reloaded(Vec<Dispatch>),
    /// Every entry came to rest; this work, all of it releases, results.
    Stopping(Vec<Dispatch>),
    /// The events asked for, oldest first.
    Events(Vec<ControlEvent>),
    /// The request names an entry that does not exist; nothing was done.
    UnknownEntry,
}

/// The source that a request's entry name stands for: any source where the
/// request names none, and no result where no entry has the name.
pub open spec fn source_of(names: Seq<String>, name: Option<String>) -> Option<Option<Source>> {
    match name {
        None => Some(None),
        Some(n) => match position_of(names, n@) {
            Some(at) => Some(Some(Source::Entry(at))),
            None => None,
        },
    }
}

} // verus!
