//! The editor's configuration: which language server to run for which file
//! type, read from the `[[lsp]]` blocks of its configuration file.
//!
//! The file is a sequence of `[[lsp]]` blocks, each giving a `filetype` and
//! a `command` as quoted strings; blank lines and `#` comments may stand
//! anywhere between them.

use vstd::prelude::*;

use crate::buffer::base::lines_of;
use crate::text::{char_is_whitespace, is_whitespace_char, push_char};

verus! {

/// One language-server entry: run `command` for files of `filetype`.
pub struct LspConfig {
    pub filetype: String,
    pub command: String,
}

/// The whole configuration: the language servers, in file order.
pub struct Config {
    pub lsp: Vec<LspConfig>,
}

/// Why a configuration text was rejected.
#[derive(Debug)]
pub enum ConfigError {
    /// A line is neither blank, a comment, an `[[lsp]]` header, nor a
    /// quoted `filetype` or `command` assignment.
    BadLine,
    /// An assignment stands before the first `[[lsp]]` header, a key is
    /// given twice in one block, or a block ends without both keys.
    BadBlock,
}

/// A line's text without surrounding whitespace.
pub open spec fn trim(l: Seq<char>) -> Seq<char>
    decreases l.len(),
{
    if l.len() > 0 && is_whitespace_char(l[0]) {
        trim(l.drop_first())
    } else if l.len() > 0 && is_whitespace_char(l.last()) {
        trim(l.drop_last())
    } else {
        l
    }
}

/// How one configuration line reads.
pub enum LineV {
    Blank,
    Header,
    Filetype(Seq<char>),
    CommandKey(Seq<char>),
    Bad,
}

/// The quoted value of an assignment line `key = "value"`, if the line has
/// exactly that shape after `key`.
pub open spec fn quoted_value(rest: Seq<char>) -> Option<Seq<char>> {
    let t = trim(rest);
    if t.len() >= 3 && t[0] == '=' {
        let q = trim(t.drop_first());
        if q.len() >= 2 && q[0] == '"' && q.last() == '"' && (forall|k: int|
            0 < k < q.len() - 1 ==> q[k] != '"') {
            Some(q.subrange(1, q.len() - 1))
        } else {
            None
        }
    } else {
        None
    }
}

/// Read one line: blank or comment, an `[[lsp]]` header, one of the two
/// assignments, or bad.
pub open spec fn classify_line(l: Seq<char>) -> LineV {
    let t = trim(l);
    if t.len() == 0 || t[0] == '#' {
        LineV::Blank
    } else if t == "[[lsp]]"@ {
        LineV::Header
    } else if t.len() >= 8 && t.subrange(0, 8) == "filetype"@ && quoted_value(
        t.subrange(8, t.len() as int),
    ) is Some {
        LineV::Filetype(quoted_value(t.subrange(8, t.len() as int))->0)
    } else if t.len() >= 7 && t.subrange(0, 7) == "command"@ && quoted_value(
        t.subrange(7, t.len() as int),
    ) is Some {
        LineV::CommandKey(quoted_value(t.subrange(7, t.len() as int))->0)
    } else {
        LineV::Bad
    }
}

/// The entries of the configuration lines from `i` on, given the block
/// being built: None when the text is rejected.
pub open spec fn parse_blocks(
    lines: Seq<Seq<char>>,
    i: int,
    in_block: bool,
    ft: Option<Seq<char>>,
    cmd: Option<Seq<char>>,
) -> Option<Seq<(Seq<char>, Seq<char>)>>
    decreases lines.len() - i,
{
    if i < 0 || i >= lines.len() {
        if !in_block {
            Some(Seq::empty())
        } else if ft is Some && cmd is Some {
            Some(seq![(ft->0, cmd->0)])
        } else {
            None
        }
    } else {
        match classify_line(lines[i]) {
            LineV::Blank => parse_blocks(lines, i + 1, in_block, ft, cmd),
            LineV::Header => {
                if !in_block {
                    parse_blocks(lines, i + 1, true, None, None)
                } else if ft is Some && cmd is Some {
                    match parse_blocks(lines, i + 1, true, None, None) {
                        Some(rest) => Some(seq![(ft->0, cmd->0)] + rest),
                        None => None,
                    }
                } else {
                    None
                }
            },
            LineV::Filetype(v) => if in_block && ft is None {
                parse_blocks(lines, i + 1, true, Some(v), cmd)
            } else {
                None
            },
            LineV::CommandKey(v) => if in_block && cmd is None {
                parse_blocks(lines, i + 1, true, ft, Some(v))
            } else {
                None
            },
            LineV::Bad => None,
        }
    }
}

/// What a configuration text means: its entries, or nothing if rejected.
pub open spec fn config_of(s: Seq<char>) -> Option<Seq<(Seq<char>, Seq<char>)>> {
    parse_blocks(lines_of(s, 0), 0, false, None, None)
}

/// The entries held by a parsed configuration, elementwise.
pub open spec fn entries_of(v: Seq<LspConfig>) -> Seq<(Seq<char>, Seq<char>)>
    decreases v.len(),
{
    if v.len() == 0 {
        Seq::empty()
    } else {
        entries_of(v.drop_last()).push((v.last().filetype@, v.last().command@))
    }
}

pub broadcast proof fn lemma_entries_of(v: Seq<LspConfig>)
    ensures
        (#[trigger] entries_of(v)).len() == v.len(),
        forall|i: int|
            0 <= i < v.len() ==> entries_of(v)[i] == (v[i].filetype@, v[i].command@),
    decreases v.len(),
{
    if v.len() > 0 {
        lemma_entries_of(v.drop_last());
        assert(forall|i: int| 0 <= i < v.len() - 1 ==> v.drop_last()[i] == v[i]);
    }
}

fn trim_exec(l: &Vec<char>) -> (r: Vec<char>)
    ensures
        r@ == trim(l@),
    decreases l@.len(),
{
    let n = l.len();
    if n > 0 && char_is_whitespace(l[0]) {
        let mut rest: Vec<char> = Vec::new();
        let mut k: usize = 1;
        while k < n
            invariant
                1 <= k <= n,
                n == l@.len(),
                rest@ == l@.subrange(1, k as int),
            decreases n - k,
        {
            let c = l[k];
            rest.push(c);
            proof {
                assert(rest@ =~= l@.subrange(1, k + 1));
            }
            k = k + 1;
        }
        proof {
            assert(rest@ =~= l@.drop_first());
        }
        trim_exec(&rest)
    } else if n > 0 && char_is_whitespace(l[n - 1]) {
        let mut rest: Vec<char> = Vec::new();
        let mut k: usize = 0;
        while k < n - 1
            invariant
                k <= n - 1,
                n == l@.len(),
                rest@ == l@.subrange(0, k as int),
            decreases n - 1 - k,
        {
            let c = l[k];
            rest.push(c);
            proof {
                assert(rest@ =~= l@.subrange(0, k + 1));
            }
            k = k + 1;
        }
        proof {
            assert(rest@ =~= l@.drop_last());
        }
        trim_exec(&rest)
    } else {
        let mut out: Vec<char> = Vec::new();
        let mut k: usize = 0;
        while k < n
            invariant
                k <= n,
                n == l@.len(),
                out@ == l@.subrange(0, k as int),
            decreases n - k,
        {
            let c = l[k];
            out.push(c);
            proof {
                assert(out@ =~= l@.subrange(0, k + 1));
            }
            k = k + 1;
        }
        proof {
            assert(out@ =~= l@);
        }
        out
    }
}

fn chars_eq_lit(a: &Vec<char>, lit: &str) -> (r: bool)
    ensures
        r == (a@ == lit@),
{
    let n = lit.unicode_len();
    if a.len() != n {
        proof {
            assert(a@ != lit@) by {
                if a@ == lit@ {
                    assert(a@.len() == lit@.len());
                }
            }
        }
        return false;
    }
    let mut i: usize = 0;
    while i < n
        invariant
            n == lit@.len() == a@.len(),
            i <= n,
            forall|k: int| 0 <= k < i ==> a@[k] == lit@[k],
        decreases n - i,
    {
        if a[i] != lit.get_char(i) {
            proof {
                assert(a@ != lit@) by {
                    if a@ == lit@ {
                        assert(a@[i as int] == lit@[i as int]);
                    }
                }
            }
            return false;
        }
        i = i + 1;
    }
    proof {
        assert(a@ =~= lit@);
    }
    true
}

#[verifier::loop_isolation(false)]
fn parse_quoted(rest: &Vec<char>) -> (r: Option<String>)
    ensures
        match r {
            Some(v) => quoted_value(rest@) == Some(v@),
            None => quoted_value(rest@) is None,
        },
{
    let t = trim_exec(rest);
    proof {
        assert(t@ == trim(rest@));
    }
    if t.len() < 3 || t[0] != '=' {
        return None;
    }
    let mut inner: Vec<char> = Vec::new();
    let mut k: usize = 1;
    while k < t.len()
        invariant
            1 <= k <= t@.len(),
            inner@ == t@.subrange(1, k as int),
        decreases t@.len() - k,
    {
        let c = t[k];
        inner.push(c);
        proof {
            assert(inner@ =~= t@.subrange(1, k + 1));
        }
        k = k + 1;
    }
    proof {
        assert(inner@ =~= t@.drop_first());
    }
    let q = trim_exec(&inner);
    proof {
        assert(q@ == trim(trim(rest@).drop_first()));
    }
    if q.len() < 2 {
        return None;
    }
    if q[0] != '"' || q[q.len() - 1] != '"' {
        proof {
            assert(q@[0] != '"' || q@.last() != '"');
        }
        return None;
    }
    let mut out = String::new();
    let mut i: usize = 1;
    while i < q.len() - 1
        invariant
            1 <= i <= q@.len() - 1,
            q@.len() >= 2,
            out@ == q@.subrange(1, i as int),
            forall|k2: int| 0 < k2 < i ==> q@[k2] != '"',
        decreases q@.len() - 1 - i,
    {
        let c = q[i];
        if c == '"' {
            proof {
                assert(q@[i as int] == '"');
            }
            return None;
        }
        push_char(&mut out, c);
        proof {
            assert(out@ =~= q@.subrange(1, i + 1));
        }
        i = i + 1;
    }
    proof {
        assert(out@ =~= q@.subrange(1, q@.len() - 1));
    }
    Some(out)
}

/// Parse a configuration text into its language-server entries.  Fails
/// exactly where the text is no sequence of complete `[[lsp]]` blocks.
#[verifier::loop_isolation(false)]
pub fn parse_config(text: &str) -> (r: Result<Config, ConfigError>)
    ensures
        match r {
            Ok(c) => config_of(text@) == Some(entries_of(c.lsp@)),
            Err(_) => config_of(text@) is None,
        },
{
    broadcast use lemma_entries_of;
    broadcast use crate::buffer::base::lemma_line_views;

    proof {
        reveal_strlit("[[lsp]]");
        reveal_strlit("filetype");
        reveal_strlit("command");
    }
    let lines = crate::buffer::base::split_into_lines(text);
    let ghost lv = crate::buffer::base::line_views(lines@);
    let mut out: Vec<LspConfig> = Vec::new();
    let mut in_block = false;
    let mut ft: Option<String> = None;
    let mut cmd: Option<String> = None;
    let mut i: usize = 0;
    proof {
        if parse_blocks(lv, 0, false, None, None) is Some {
            let r0 = parse_blocks(lv, 0, false, None, None)->0;
            assert(entries_of(out@) + r0 =~= r0);
        }
    }
    while i < lines.len()
        invariant
            i <= lines@.len(),
            lv == crate::buffer::base::line_views(lines@),
            lv.len() == lines@.len(),
            !in_block ==> ft is None && cmd is None,
            parse_blocks(lv, 0, false, None, None) == ({
                let sft = match ft {
                    Some(f) => Some(f@),
                    None => None,
                };
                let scmd = match cmd {
                    Some(c) => Some(c@),
                    None => None,
                };
                match parse_blocks(lv, i as int, in_block, sft, scmd) {
                    Some(rest) => Some(entries_of(out@) + rest),
                    None => None::<Seq<(Seq<char>, Seq<char>)>>,
                }
            }),
        decreases lines@.len() - i,
    {
        let mut cs: Vec<char> = Vec::new();
        let s = lines[i].content.as_str();
        let n = s.unicode_len();
        let mut k: usize = 0;
        while k < n
            invariant
                k <= n,
                n == s@.len(),
                cs@ == s@.subrange(0, k as int),
            decreases n - k,
        {
            let c = s.get_char(k);
            cs.push(c);
            proof {
                assert(cs@ =~= s@.subrange(0, k + 1));
            }
            k = k + 1;
        }
        proof {
            assert(cs@ =~= s@);
            assert(lv[i as int] == lines@[i as int].content@);
        }
        let t = trim_exec(&cs);
        proof {
            assert(t@ == trim(lv[i as int]));
        }
        let ghost before_entries = entries_of(out@);
        if t.len() == 0 || t[0] == '#' {
            // Blank or comment.
            proof {
                assert(classify_line(lv[i as int]) == (LineV::Blank));
            }
        } else if chars_eq_lit(&t, "[[lsp]]") {
            proof {
                assert(t@[0] == '[');
                assert(classify_line(lv[i as int]) == (LineV::Header));
            }
            if !in_block {
                in_block = true;
                ft = None;
                cmd = None;
            } else {
                match (ft, cmd) {
                    (Some(f), Some(c)) => {
                        let ghost fv = f@;
                        let ghost cv = c@;
                        out.push(LspConfig { filetype: f, command: c });
                        proof {
                            assert(out@.drop_last() =~= out@.subrange(0, out@.len() - 1));
                            assert(entries_of(out@) =~= before_entries.push((fv, cv)));
                            if parse_blocks(lv, i + 1, true, None, None) is Some {
                                let rest = parse_blocks(lv, i + 1, true, None, None)->0;
                                assert(before_entries + (seq![(fv, cv)] + rest) =~= entries_of(
                                    out@,
                                ) + rest);
                            }
                        }
                        ft = None;
                        cmd = None;
                    },
                    _ => {
                        return Err(ConfigError::BadBlock);
                    },
                }
            }
        } else {
            // An assignment line, or bad.
            let is_ft = t.len() >= 8 && chars_prefix(&t, "filetype");
            let is_cmd = !is_ft && t.len() >= 7 && chars_prefix(&t, "command");
            proof {
                if t@.len() >= 7 {
                    assert(t@.subrange(0, 7)[0] == t@[0]);
                }
                if t@.len() >= 8 {
                    assert(t@.subrange(0, 8)[0] == t@[0]);
                }
            }
            if is_ft {
                let rest = chars_from(&t, 8);
                match parse_quoted(&rest) {
                    Some(v) => {
                        proof {
                            assert(t@[0] == 'f');
                            assert(t@ != "[[lsp]]"@) by {
                                if t@ == "[[lsp]]"@ {
                                    assert(t@[0] == '[');
                                }
                            }
                            assert(classify_line(lv[i as int]) == (LineV::Filetype(v@)));
                        }
                        if in_block && ft.is_none() {
                            ft = Some(v);
                        } else {
                            return Err(ConfigError::BadBlock);
                        }
                    },
                    None => {
                        proof {
                            assert(classify_line(lv[i as int]) == (LineV::Bad)) by {
                                assert(t@[0] == 'f');
                                if t@.len() >= 7 && t@.subrange(0, 7) == "command"@ {
                                    assert(t@[0] == 'c');
                                }
                            }
                        }
                        return Err(ConfigError::BadLine);
                    },
                }
            } else if is_cmd {
                let rest = chars_from(&t, 7);
                match parse_quoted(&rest) {
                    Some(v) => {
                        proof {
                            assert(t@[0] == 'c');
                            assert(t@ != "[[lsp]]"@) by {
                                if t@ == "[[lsp]]"@ {
                                    assert(t@[0] == '[');
                                }
                            }
                            assert(!(t@.len() >= 8 && t@.subrange(0, 8) == "filetype"@
                                && quoted_value(t@.subrange(8, t@.len() as int)) is Some)) by {
                                if t@.len() >= 8 && t@.subrange(0, 8) == "filetype"@ {
                                    assert(t@[0] == 'f');
                                }
                            }
                            assert(classify_line(lv[i as int]) == (LineV::CommandKey(v@)));
                        }
                        if in_block && cmd.is_none() {
                            cmd = Some(v);
                        } else {
                            return Err(ConfigError::BadBlock);
                        }
                    },
                    None => {
                        proof {
                            assert(classify_line(lv[i as int]) == (LineV::Bad)) by {
                                if t@.len() >= 8 && t@.subrange(0, 8) == "filetype"@ {
                                    assert(t@[0] == 'f' && t@[0] == 'c');
                                }
                            }
                        }
                        return Err(ConfigError::BadLine);
                    },
                }
            } else {
                proof {
                    assert(classify_line(lv[i as int]) == (LineV::Bad));
                }
                return Err(ConfigError::BadLine);
            }
        }
        i = i + 1;
    }
    match (ft, cmd, in_block) {
        (Some(f), Some(c), true) => {
            let ghost before_entries = entries_of(out@);
            let ghost fv = f@;
            let ghost cv = c@;
            out.push(LspConfig { filetype: f, command: c });
            proof {
                assert(out@.drop_last() =~= out@.subrange(0, out@.len() - 1));
                assert(entries_of(out@) =~= before_entries.push((fv, cv)));
                assert(before_entries + seq![(fv, cv)] =~= entries_of(out@));
            }
            Ok(Config { lsp: out })
        },
        (None, None, false) => {
            proof {
                assert(entries_of(out@) + Seq::<(Seq<char>, Seq<char>)>::empty() =~= entries_of(
                    out@,
                ));
            }
            Ok(Config { lsp: out })
        },
        _ => Err(ConfigError::BadBlock),
    }
}

fn chars_prefix(a: &Vec<char>, lit: &str) -> (r: bool)
    ensures
        r == (lit@.len() <= a@.len() && a@.subrange(0, lit@.len() as int) == lit@),
{
    let n = lit.unicode_len();
    if a.len() < n {
        return false;
    }
    let mut i: usize = 0;
    while i < n
        invariant
            n == lit@.len(),
            n <= a@.len(),
            i <= n,
            forall|k: int| 0 <= k < i ==> a@[k] == lit@[k],
        decreases n - i,
    {
        if a[i] != lit.get_char(i) {
            proof {
                assert(a@.subrange(0, n as int)[i as int] == a@[i as int]);
            }
            return false;
        }
        i = i + 1;
    }
    proof {
        assert(a@.subrange(0, n as int) =~= lit@);
    }
    true
}

fn chars_from(a: &Vec<char>, from: usize) -> (r: Vec<char>)
    requires
        from <= a@.len(),
    ensures
        r@ == a@.subrange(from as int, a@.len() as int),
{
    let mut out: Vec<char> = Vec::new();
    let mut k: usize = from;
    while k < a.len()
        invariant
            from <= k <= a@.len(),
            out@ == a@.subrange(from as int, k as int),
        decreases a@.len() - k,
    {
        let c = a[k];
        out.push(c);
        proof {
            assert(out@ =~= a@.subrange(from as int, k + 1));
        }
        k = k + 1;
    }
    out
}

} // verus!
