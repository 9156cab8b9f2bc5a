//! Parsing user-typed command lines into payloads. A line starting with `.`
//! is a command of one, two or three whitespace-free tokens separated by
//! single spaces; anything else is chat text. `.file` and `.image` name a
//! path whose contents the caller must load, so parsing yields a
//! [`LineCommand`] rather than reading anything itself.

use vstd::prelude::*;

use crate::message::{Message, MsgView};

verus! {

/// Why a command line was rejected. Each variant renders to the exact
/// user-facing sentence via [`ParseError::message`].
#[derive(Debug, Clone, Copy, PartialEq, Eq, Structural)]
pub enum ParseError {
    /// `.login` needs both a username and a password.
    LoginTwoArgs,
    /// `.signup` needs both a new username and a new password.
    SignupUsage,
    /// `.passwd` needs the new password typed twice.
    PasswdTwice,
    /// The two `.passwd` arguments differ.
    PasswdMismatch,
    /// A `.`-prefixed line whose keyword is not known.
    UnknownCommand,
}

impl ParseError {
    /// The sentence shown to the user for this rejection.
    pub fn message(&self) -> (r: String)
        ensures
            self is LoginTwoArgs ==> r@ == "Login requires two arguments - username and password"@,
            self is SignupUsage ==> r@ == "Use .signup <new_username> <new_password>"@,
            self is PasswdTwice ==> r@ == "Passwd requires the new password to be typed two times"@,
            self is PasswdMismatch ==> r@ == "Passwords don't match!"@,
            self is UnknownCommand ==> r@ == "Unknown command"@,
    {
        match self {
            ParseError::LoginTwoArgs => String::from_str(
                "Login requires two arguments - username and password",
            ),
            ParseError::SignupUsage => String::from_str("Use .signup <new_username> <new_password>"),
            ParseError::PasswdTwice => String::from_str(
                "Passwd requires the new password to be typed two times",
            ),
            ParseError::PasswdMismatch => String::from_str("Passwords don't match!"),
            ParseError::UnknownCommand => String::from_str("Unknown command"),
        }
    }
}

/// What a well-formed line asks for: a payload ready to send, or a file or
/// image to load from the named path first.
pub enum LineCommand {
    /// The line parsed to a complete payload.
    Send(Message),
    /// `.file PATH`: load the file, then send `Message::File(PATH, bytes)`.
    LoadFile(String),
    /// `.image PATH`: load the file, then send `Message::Image(bytes)`.
    LoadImage(String),
}

/// The mathematical value of a parse outcome.
#[verifier::ext_equal]
pub enum ParsedV {
    Send(MsgView),
    LoadFile(Seq<char>),
    LoadImage(Seq<char>),
    Fail(ParseError),
}

/// The value of an executable parse result.
pub open spec fn parse_outcome_view(r: Result<LineCommand, ParseError>) -> ParsedV {
    match r {
        Ok(LineCommand::Send(m)) => ParsedV::Send(m@),
        Ok(LineCommand::LoadFile(p)) => ParsedV::LoadFile(p@),
        Ok(LineCommand::LoadImage(p)) => ParsedV::LoadImage(p@),
        Err(e) => ParsedV::Fail(e),
    }
}

/// The whitespace characters that may not occur inside a command token.
pub open spec fn is_wsp(c: char) -> bool {
    c == ' ' || c == '\t' || c == '\n' || c == '\r' || c == '\u{b}' || c == '\u{c}'
}

/// A command token: non-empty and free of whitespace.
pub open spec fn is_token(t: Seq<char>) -> bool {
    t.len() > 0 && forall|i: int| 0 <= i < t.len() ==> !is_wsp(#[trigger] t[i])
}

/// Split on every single space character; `k` spaces give `k + 1` segments,
/// so doubled, leading or trailing spaces give empty segments.
pub open spec fn split_sp(s: Seq<char>) -> Seq<Seq<char>>
    decreases s.len(),
{
    if s.len() == 0 {
        seq![Seq::empty()]
    } else if s[0] == ' ' {
        seq![Seq::<char>::empty()] + split_sp(s.drop_first())
    } else {
        let r = split_sp(s.drop_first());
        seq![seq![s[0]] + r[0]] + r.skip(1)
    }
}

pub proof fn lemma_split_sp_len(s: Seq<char>)
    ensures
        split_sp(s).len() >= 1,
    decreases s.len(),
{
    if s.len() > 0 {
        lemma_split_sp_len(s.drop_first());
    }
}

/// The meaning of a one-token command.
pub open spec fn keyword1(k: Seq<char>) -> ParsedV {
    if k == "quit"@ {
        ParsedV::Send(MsgView::Quit)
    } else {
        ParsedV::Fail(ParseError::UnknownCommand)
    }
}

/// The meaning of a two-token command.
pub open spec fn keyword2(k: Seq<char>, a: Seq<char>) -> ParsedV {
    if k == "file"@ {
        ParsedV::LoadFile(a)
    } else if k == "image"@ {
        ParsedV::LoadImage(a)
    } else if k == "login"@ {
        ParsedV::Fail(ParseError::LoginTwoArgs)
    } else if k == "signup"@ {
        ParsedV::Fail(ParseError::SignupUsage)
    } else if k == "passwd"@ {
        ParsedV::Fail(ParseError::PasswdTwice)
    } else {
        ParsedV::Fail(ParseError::UnknownCommand)
    }
}

/// The meaning of a three-token command; `file` and `image` take their path
/// from the last token.
pub open spec fn keyword3(k: Seq<char>, a: Seq<char>, b: Seq<char>) -> ParsedV {
    if k == "file"@ {
        ParsedV::LoadFile(b)
    } else if k == "image"@ {
        ParsedV::LoadImage(b)
    } else if k == "login"@ {
        ParsedV::Send(MsgView::Login(a, b))
    } else if k == "signup"@ {
        ParsedV::Send(MsgView::Signup(a, b))
    } else if k == "passwd"@ {
        if a == b {
            ParsedV::Send(MsgView::Passwd(b))
        } else {
            ParsedV::Fail(ParseError::PasswdMismatch)
        }
    } else {
        ParsedV::Fail(ParseError::UnknownCommand)
    }
}

/// The grammar: a line is a command exactly when it starts with `.` and the
/// rest splits into one, two or three whitespace-free tokens on single
/// spaces; every other line is chat text, verbatim.
pub open spec fn spec_parse(s: Seq<char>) -> ParsedV {
    if s.len() == 0 || s[0] != '.' {
        ParsedV::Send(MsgView::Text(s))
    } else {
        let segs = split_sp(s.skip(1));
        if segs.len() == 1 && is_token(segs[0]) {
            keyword1(segs[0])
        } else if segs.len() == 2 && is_token(segs[0]) && is_token(segs[1]) {
            keyword2(segs[0], segs[1])
        } else if segs.len() == 3 && is_token(segs[0]) && is_token(segs[1]) && is_token(segs[2]) {
            keyword3(segs[0], segs[1], segs[2])
        } else {
            ParsedV::Send(MsgView::Text(s))
        }
    }
}

/// The views of a vector of strings.
pub open spec fn seg_views(v: Seq<String>) -> Seq<Seq<char>> {
    v.map_values(|t: String| t@)
}

fn token_ok(t: &String) -> (r: bool)
    ensures
        r == is_token(t@),
{
    let s = t.as_str();
    let n = s.unicode_len();
    if n == 0 {
        return false;
    }
    let mut i: usize = 0;
    while i < n
        invariant
            n == s@.len(),
            s@ == t@,
            i <= n,
            forall|j: int| 0 <= j < i ==> !is_wsp(#[trigger] s@[j]),
        decreases n - i,
    {
        let c = s.get_char(i);
        if c == ' ' || c == '\t' || c == '\n' || c == '\r' || c == '\u{b}' || c == '\u{c}' {
            return false;
        }
        i += 1;
    }
    true
}

fn is_kw(s: &String, kw: &str) -> (r: bool)
    ensures
        r == (s@ == kw@),
{
    let k = String::from_str(kw);
    s.eq(&k)
}

impl Message {
    /// Parse one typed line. The result is exactly [`spec_parse`] of the
    /// line's characters: chat text for plain lines, a payload or a load
    /// request for well-formed commands, and the precise error otherwise.
    pub fn from_str(line: &str) -> (r: Result<LineCommand, ParseError>)
        ensures
            parse_outcome_view(r) == spec_parse(line@),
    {
        let n = line.unicode_len();
        if n == 0 || line.get_char(0) != '.' {
            return Ok(LineCommand::Send(Message::Text(String::from_str(line))));
        }
        let ghost tail = line@.skip(1);
        let mut segs: Vec<String> = Vec::new();
        let mut cur = String::new();
        let mut i: usize = 1;
        proof {
            lemma_split_sp_len(tail);
            assert(split_sp(tail) =~~= seg_views(segs@) + seq![cur@ + split_sp(tail)[0]]
                + split_sp(tail).skip(1));
        }
        while i < n
            invariant
                1 <= i <= n,
                n == line@.len(),
                tail == line@.skip(1),
                split_sp(line@.skip(i as int)).len() >= 1,
                split_sp(tail) == seg_views(segs@) + seq![
                    cur@ + split_sp(line@.skip(i as int))[0],
                ] + split_sp(line@.skip(i as int)).skip(1),
            decreases n - i,
        {
            let ghost rem = line@.skip(i as int);
            let ghost rem2 = line@.skip(i as int + 1);
            proof {
                assert(rem.len() > 0);
                assert(rem.drop_first() =~= rem2);
                lemma_split_sp_len(rem2);
            }
            let c = line.get_char(i);
            if c == ' ' {
                proof {
                    assert(split_sp(rem) =~~= seq![Seq::<char>::empty()] + split_sp(rem2));
                    assert(seg_views(segs@.push(cur)) =~~= seg_views(segs@).push(cur@));
                    assert(split_sp(tail) =~~= seg_views(segs@.push(cur)) + seq![
                        Seq::<char>::empty() + split_sp(rem2)[0],
                    ] + split_sp(rem2).skip(1));
                }
                segs.push(cur);
                cur = String::new();
            } else {
                let piece = line.substring_char(i, i + 1);
                proof {
                    assert(piece@ =~= seq![rem[0]]);
                    assert(split_sp(rem) =~~= seq![seq![rem[0]] + split_sp(rem2)[0]] + split_sp(
                        rem2,
                    ).skip(1));
                    assert(cur@ + split_sp(rem)[0] =~= (cur@ + seq![rem[0]]) + split_sp(rem2)[0]);
                    assert(split_sp(rem).skip(1) =~~= split_sp(rem2).skip(1));
                }
                cur.append(piece);
            }
            i += 1;
        }
        proof {
            assert(line@.skip(n as int) =~= Seq::<char>::empty());
            assert(split_sp(line@.skip(n as int))[0] =~= Seq::<char>::empty());
            assert(split_sp(line@.skip(n as int)).skip(1) =~~= Seq::<Seq<char>>::empty());
            assert(cur@ + Seq::<char>::empty() =~= cur@);
            assert(seg_views(segs@.push(cur)) =~~= seg_views(segs@).push(cur@));
            assert(split_sp(tail) =~~= seg_views(segs@).push(cur@));
        }
        segs.push(cur);
        proof {
            assert(seg_views(segs@) =~~= split_sp(tail));
        }
        if segs.len() == 1 && token_ok(&segs[0]) {
            if is_kw(&segs[0], "quit") {
                Ok(LineCommand::Send(Message::Quit))
            } else {
                Err(ParseError::UnknownCommand)
            }
        } else if segs.len() == 2 && token_ok(&segs[0]) && token_ok(&segs[1]) {
            let a = segs[1].clone();
            if is_kw(&segs[0], "file") {
                Ok(LineCommand::LoadFile(a))
            } else if is_kw(&segs[0], "image") {
                Ok(LineCommand::LoadImage(a))
            } else if is_kw(&segs[0], "login") {
                Err(ParseError::LoginTwoArgs)
            } else if is_kw(&segs[0], "signup") {
                Err(ParseError::SignupUsage)
            } else if is_kw(&segs[0], "passwd") {
                Err(ParseError::PasswdTwice)
            } else {
                Err(ParseError::UnknownCommand)
            }
        } else if segs.len() == 3 && token_ok(&segs[0]) && token_ok(&segs[1]) && token_ok(
            &segs[2],
        ) {
            let a = segs[1].clone();
            let b = segs[2].clone();
            if is_kw(&segs[0], "file") {
                Ok(LineCommand::LoadFile(b))
            } else if is_kw(&segs[0], "image") {
                Ok(LineCommand::LoadImage(b))
            } else if is_kw(&segs[0], "login") {
                Ok(LineCommand::Send(Message::Login(a, b)))
            } else if is_kw(&segs[0], "signup") {
                Ok(LineCommand::Send(Message::Signup(a, b)))
            } else if is_kw(&segs[0], "passwd") {
                if a.eq(&b) {
                    Ok(LineCommand::Send(Message::Passwd(b)))
                } else {
                    Err(ParseError::PasswdMismatch)
                }
            } else {
                Err(ParseError::UnknownCommand)
            }
        } else {
            Ok(LineCommand::Send(Message::Text(String::from_str(line))))
        }
    }
}

} // verus!
