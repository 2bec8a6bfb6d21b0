//! Text processing behind the All tab: terminal escape stripping for pane
//! buffers and the ssh login target of a foreground command line.
use vstd::prelude::*;

use crate::text::{after_last, after_last_char, chars_of, is_whitespace, is_ws, push_char, str_eq};

verus! {

/// Where the escape-stripping scan stands after a prefix of the text.
#[derive(Debug, Clone, Copy, PartialEq, Eq, Structural)]
pub enum AnsiState {
    /// Plain text: characters are kept.
    Text,
    /// Just after an ESC.
    Escape,
    /// Inside a control sequence (`ESC [`), up to its final character.
    Csi,
    /// Inside an operating-system command (`ESC ]`), up to BEL or `ESC \`.
    Osc,
    /// Just after an ESC inside an operating-system command.
    OscEscape,
}

/// A control sequence ends with a character in `@`..=`~`.
pub open spec fn is_csi_final(c: char) -> bool {
    0x40 <= (c as u32) && (c as u32) <= 0x7e
}

/// One step of the scan: the next state, and the character kept, if any.
pub open spec fn ansi_step(st: AnsiState, c: char) -> (AnsiState, Option<char>) {
    match st {
        AnsiState::Text => if c == '\x1b' {
            (AnsiState::Escape, None)
        } else {
            (AnsiState::Text, Some(c))
        },
        AnsiState::Escape => if c == '[' {
            (AnsiState::Csi, None)
        } else if c == ']' {
            (AnsiState::Osc, None)
        } else {
            (AnsiState::Text, None)
        },
        AnsiState::Csi => if is_csi_final(c) {
            (AnsiState::Text, None)
        } else {
            (AnsiState::Csi, None)
        },
        AnsiState::Osc => if c == '\x07' {
            (AnsiState::Text, None)
        } else if c == '\x1b' {
            (AnsiState::OscEscape, None)
        } else {
            (AnsiState::Osc, None)
        },
        AnsiState::OscEscape => if c == '\\' {
            (AnsiState::Text, None)
        } else if c == '\x07' {
            (AnsiState::Text, None)
        } else if c == '\x1b' {
            (AnsiState::OscEscape, None)
        } else {
            (AnsiState::Osc, None)
        },
    }
}

/// The scan over `s`: the state it ends in and the characters it kept.
pub open spec fn ansi_scan(s: Seq<char>) -> (AnsiState, Seq<char>)
    decreases s.len(),
{
    if s.len() == 0 {
        (AnsiState::Text, Seq::empty())
    } else {
        let (st, out) = ansi_scan(s.drop_last());
        let (next, kept) = ansi_step(st, s.last());
        (
            next,
            match kept {
                Some(c) => out.push(c),
                None => out,
            },
        )
    }
}

/// `s` without its terminal escape sequences: two-character escapes,
/// control sequences (`ESC [` ... final character) and operating-system
/// commands (`ESC ]` ... BEL or `ESC \`).
pub open spec fn strip_ansi_text(s: Seq<char>) -> Seq<char> {
    ansi_scan(s).1
}

fn step(st: AnsiState, c: char) -> (res: (AnsiState, Option<char>))
    ensures
        res == ansi_step(st, c),
{
    match st {
        AnsiState::Text => if c == '\x1b' {
            (AnsiState::Escape, None)
        } else {
            (AnsiState::Text, Some(c))
        },
        AnsiState::Escape => if c == '[' {
            (AnsiState::Csi, None)
        } else if c == ']' {
            (AnsiState::Osc, None)
        } else {
            (AnsiState::Text, None)
        },
        AnsiState::Csi => {
            let u = c as u32;
            if 0x40 <= u && u <= 0x7e {
                (AnsiState::Text, None)
            } else {
                (AnsiState::Csi, None)
            }
        },
        AnsiState::Osc => if c == '\x07' {
            (AnsiState::Text, None)
        } else if c == '\x1b' {
            (AnsiState::OscEscape, None)
        } else {
            (AnsiState::Osc, None)
        },
        AnsiState::OscEscape => if c == '\\' {
            (AnsiState::Text, None)
        } else if c == '\x07' {
            (AnsiState::Text, None)
        } else if c == '\x1b' {
            (AnsiState::OscEscape, None)
        } else {
            (AnsiState::Osc, None)
        },
    }
}

/// Removes terminal escape sequences from a pane buffer.
pub fn strip_ansi(raw: &str) -> (res: String)
    ensures
        res@ == strip_ansi_text(raw@),
{
    let v = chars_of(raw);
    let mut out = String::new();
    let mut st = AnsiState::Text;
    let mut i: usize = 0;
    while i < v.len()
        invariant
            i <= v@.len(),
            v@ == raw@,
            (st, out@) == ansi_scan(raw@.take(i as int)),
        decreases v@.len() - i,
    {
        proof {
            assert(raw@.take(i + 1).drop_last() =~= raw@.take(i as int));
            assert(raw@.take(i + 1).last() == v@[i as int]);
        }
        let (next, kept) = step(st, v[i]);
        match kept {
            Some(c) => push_char(&mut out, c),
            None => {},
        }
        st = next;
        i += 1;
    }
    assert(raw@.take(v@.len() as int) =~= raw@);
    out
}

/// The words of `s` (its maximal runs of non-whitespace) with the run still
/// open at its end.
pub open spec fn word_scan(s: Seq<char>) -> (Seq<Seq<char>>, Seq<char>)
    decreases s.len(),
{
    if s.len() == 0 {
        (Seq::empty(), Seq::empty())
    } else {
        let (words, cur) = word_scan(s.drop_last());
        let c = s.last();
        if is_ws(c) {
            if cur.len() > 0 {
                (words.push(cur), Seq::empty())
            } else {
                (words, cur)
            }
        } else {
            (words, cur.push(c))
        }
    }
}

/// The whitespace-separated words of `s`, as `str::split_whitespace` yields them.
pub open spec fn words(s: Seq<char>) -> Seq<Seq<char>> {
    let (ws, cur) = word_scan(s);
    if cur.len() > 0 {
        ws.push(cur)
    } else {
        ws
    }
}

/// The whitespace-separated words of `s`.
pub fn split_words(s: &str) -> (res: Vec<String>)
    ensures
        res@.map_values(|w: String| w@) == words(s@),
{
    let v = chars_of(s);
    let mut out: Vec<String> = Vec::new();
    let mut cur = String::new();
    let mut i: usize = 0;
    while i < v.len()
        invariant
            i <= v@.len(),
            v@ == s@,
            (out@.map_values(|w: String| w@), cur@) == word_scan(s@.take(i as int)),
        decreases v@.len() - i,
    {
        proof {
            assert(s@.take(i + 1).drop_last() =~= s@.take(i as int));
            assert(s@.take(i + 1).last() == v@[i as int]);
        }
        let c = v[i];
        if is_whitespace(c) {
            if cur.unicode_len() > 0 {
                let ghost before = out@.map_values(|w: String| w@);
                let word = cur;
                out.push(word);
                cur = String::new();
                assert(out@.map_values(|w: String| w@) =~= before.push(word@));
            }
        } else {
            push_char(&mut cur, c);
        }
        i += 1;
    }
    assert(s@.take(v@.len() as int) =~= s@);
    if cur.unicode_len() > 0 {
        let ghost before = out@.map_values(|w: String| w@);
        let word = cur;
        out.push(word);
        assert(out@.map_values(|w: String| w@) =~= before.push(word@));
    }
    out
}

/// An ssh option that takes the next word as its value (besides `-p`, the port).
pub open spec fn ssh_option_with_value(w: Seq<char>) -> bool {
    &&& w.len() == 2
    &&& w[0] == '-'
    &&& "BbcDEeFIiJLlmOoQRSWw"@.contains(w[1])
}

/// The login target of ssh's arguments: the first word that is not an
/// option or an option's value, followed by `:` and the port when `-p`
/// gave one before it.
pub open spec fn ssh_target_of_args(args: Seq<Seq<char>>, port: Option<Seq<char>>) -> Option<
    Seq<char>,
>
    decreases args.len(),
{
    if args.len() == 0 {
        None
    } else {
        let a = args[0];
        if a == "-p"@ && args.len() >= 2 {
            ssh_target_of_args(args.skip(2), Some(args[1]))
        } else if ssh_option_with_value(a) && args.len() >= 2 {
            ssh_target_of_args(args.skip(2), port)
        } else if a.len() > 0 && a[0] == '-' {
            ssh_target_of_args(args.skip(1), port)
        } else {
            Some(
                match port {
                    Some(p) => a + ":"@ + p,
                    None => a,
                },
            )
        }
    }
}

/// The ssh login target of a command line: `None` unless the program (the
/// first word, taken after its last `/`) is `ssh`.
pub open spec fn ssh_target(command: Seq<char>) -> Option<Seq<char>> {
    let ws = words(command);
    if ws.len() > 0 && after_last(ws[0], '/') == "ssh"@ {
        ssh_target_of_args(ws.skip(1), None)
    } else {
        None
    }
}

fn is_value_option(w: &str) -> (res: bool)
    ensures
        res == ssh_option_with_value(w@),
{
    let v = chars_of(w);
    if v.len() != 2 || v[0] != '-' {
        return false;
    }
    let opts = chars_of("BbcDEeFIiJLlmOoQRSWw");
    let mut i: usize = 0;
    while i < opts.len()
        invariant
            i <= opts@.len(),
            opts@ == "BbcDEeFIiJLlmOoQRSWw"@,
            v@ == w@,
            v@.len() == 2,
            v@[0] == '-',
            forall|j: int| 0 <= j < i ==> opts@[j] != v@[1],
        decreases opts@.len() - i,
    {
        if opts[i] == v[1] {
            assert("BbcDEeFIiJLlmOoQRSWw"@[i as int] == w@[1]);
            return true;
        }
        i += 1;
    }
    false
}

/// The login target of a running `ssh` command line, as `user@host` or
/// `user@host:port`; `None` for any other command.
pub fn parse_ssh_target(command: &str) -> (res: Option<String>)
    ensures
        match res {
            Some(t) => ssh_target(command@) == Some(t@),
            None => ssh_target(command@) is None,
        },
{
    let ws = split_words(command);
    let ghost wv = ws@.map_values(|w: String| w@);
    if ws.len() == 0 {
        return None;
    }
    let program = after_last_char(ws[0].as_str(), '/');
    if !str_eq(program, "ssh") {
        return None;
    }
    let mut i: usize = 1;
    let mut port: Option<&String> = None;
    while i < ws.len()
        invariant
            1 <= i <= ws@.len(),
            wv == ws@.map_values(|w: String| w@),
            ssh_target(command@) == ssh_target_of_args(
                wv.skip(i as int),
                match port {
                    Some(p) => Some(p@),
                    None => None,
                },
            ),
        decreases ws@.len() - i,
    {
        let ghost pv = match port {
            Some(p) => Some(p@),
            None => None::<Seq<char>>,
        };
        let ghost rest = wv.skip(i as int);
        assert(rest[0] == ws@[i as int]@);
        let w = ws[i].as_str();
        if str_eq(w, "-p") && i + 1 < ws.len() {
            assert(rest.skip(2) =~= wv.skip(i + 2));
            assert(rest[1] == ws@[i + 1]@);
            port = Some(&ws[i + 1]);
            i += 2;
        } else if is_value_option(w) && i + 1 < ws.len() {
            assert(rest.skip(2) =~= wv.skip(i + 2));
            i += 2;
        } else if w.unicode_len() > 0 && w.get_char(0) == '-' {
            assert(rest.skip(1) =~= wv.skip(i + 1));
            i += 1;
        } else {
            let mut target = String::from_str(w);
            match port {
                Some(p) => {
                    target.append(":");
                    target.append(p.as_str());
                },
                None => {},
            }
            return Some(target);
        }
    }
    None
}

} // verus!
