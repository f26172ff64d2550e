//! What a shell is told to use an account, or to stop using it.
use vstd::prelude::*;

use crate::session::SessionActivationReport;
use crate::text::{chars_of, join2, join3, string_of};

verus! {

/// A text inside single quotes: a single quote ends them, stands inside double quotes, and starts them
/// again.
pub open spec fn escaped(s: Seq<char>) -> Seq<char>
    decreases s.len(),
{
    if s.len() == 0 {
        seq![]
    } else {
        escaped(s.drop_last()) + if s.last() == '\'' {
            seq!['\'', '"', '\'', '"', '\'']
        } else {
            seq![s.last()]
        }
    }
}

/// A text as a shell takes it for one word, whatever it holds.
pub open spec fn quoted(s: Seq<char>) -> Seq<char> {
    seq!['\''] + escaped(s) + seq!['\'']
}

/// A text as a shell takes it for one word, whatever it holds.
pub fn shell_quote(value: &str) -> (r: String)
    ensures
        r@ == quoted(value@),
{
    let chars = chars_of(value);
    let mut out: Vec<char> = Vec::new();
    out.push('\'');
    let mut i: usize = 0;
    assert(out@ == seq!['\''] + escaped(chars@.take(0)));
    while i < chars.len()
        invariant
            i <= chars@.len(),
            out@ == seq!['\''] + escaped(chars@.take(i as int)),
        decreases chars@.len() - i,
    {
        let ghost before = out@;
        let c = chars[i];
        assert(chars@.take(i + 1).drop_last() == chars@.take(i as int));
        if c == '\'' {
            out.push('\'');
            out.push('"');
            out.push('\'');
            out.push('"');
            out.push('\'');
            assert(out@ == before + seq!['\'', '"', '\'', '"', '\'']);
        } else {
            out.push(c);
            assert(out@ == before + seq![c]);
        }
        assert(out@ == seq!['\''] + escaped(chars@.take(i + 1)));
        i = i + 1;
    }
    assert(chars@.take(chars@.len() as int) == chars@);
    let ghost before = out@;
    out.push('\'');
    assert(out@ == before + seq!['\'']);
    string_of(&out)
}

/// How a shell reads a word: `mode` is the quote that is open, if one is. Inside single quotes every
/// character stands for itself, and so does a single quote inside double quotes. A word that ends
/// inside quotes, or that holds a character that means something else to a shell, is not read.
pub open spec fn shell_reads(word: Seq<char>, mode: Option<char>) -> Option<Seq<char>>
    decreases word.len(),
{
    if word.len() == 0 {
        if mode is None {
            Some(seq![])
        } else {
            None
        }
    } else {
        let c = word[0];
        let rest = word.drop_first();
        match mode {
            Some(quote) => if c == quote {
                shell_reads(rest, None)
            } else if quote == '\'' || c == '\'' {
                match shell_reads(rest, mode) {
                    Some(more) => Some(seq![c] + more),
                    None => None,
                }
            } else {
                None
            },
            None => if c == '\'' || c == '"' {
                shell_reads(rest, Some(c))
            } else {
                None
            },
        }
    }
}

proof fn lemma_escaped_front(s: Seq<char>)
    requires
        s.len() > 0,
    ensures
        escaped(s) == (if s[0] == '\'' {
            seq!['\'', '"', '\'', '"', '\'']
        } else {
            seq![s[0]]
        }) + escaped(s.drop_first()),
    decreases s.len(),
{
    if s.len() == 1 {
        assert(s.drop_last() == Seq::<char>::empty());
        assert(s.drop_first() == Seq::<char>::empty());
        assert(s.last() == s[0]);
        assert(escaped(s.drop_last()) == Seq::<char>::empty());
    } else {
        lemma_escaped_front(s.drop_last());
        assert(s.drop_last().drop_first() == s.drop_first().drop_last());
        assert(s.drop_last()[0] == s[0]);
        assert(s.drop_first().last() == s.last());
    }
}

proof fn lemma_reads_escaped(s: Seq<char>)
    ensures
        shell_reads(escaped(s) + seq!['\''], Some('\'')) == Some(s),
    decreases s.len(),
{
    reveal_with_fuel(shell_reads, 6);
    let word = escaped(s) + seq!['\''];
    if s.len() == 0 {
        assert(word == seq!['\'']);
        assert(word.drop_first() == Seq::<char>::empty());
    } else {
        lemma_escaped_front(s);
        lemma_reads_escaped(s.drop_first());
        let tail = escaped(s.drop_first()) + seq!['\''];
        if s[0] == '\'' {
            assert(word == seq!['\'', '"', '\'', '"', '\''] + tail);
            let w1 = word.drop_first();
            assert(w1 == seq!['"', '\'', '"', '\''] + tail);
            let w2 = w1.drop_first();
            assert(w2 == seq!['\'', '"', '\''] + tail);
            let w3 = w2.drop_first();
            assert(w3 == seq!['"', '\''] + tail);
            let w4 = w3.drop_first();
            assert(w4 == seq!['\''] + tail);
            assert(w4.drop_first() == tail);
            assert(shell_reads(w4, None) == Some(s.drop_first()));
            assert(shell_reads(w3, Some('"')) == Some(s.drop_first()));
            assert(shell_reads(w2, Some('"')) == Some(seq!['\''] + s.drop_first()));
            assert(shell_reads(w1, None) == Some(seq!['\''] + s.drop_first()));
            assert(seq!['\''] + s.drop_first() == s);
        } else {
            assert(word == seq![s[0]] + tail);
            assert(word.drop_first() == tail);
            assert(seq![s[0]] + s.drop_first() == s);
        }
    }
}

/// A shell reads back the text that was quoted for it.
pub proof fn a_shell_reads_what_was_quoted(s: Seq<char>)
    ensures
        shell_reads(quoted(s), None) == Some(s),
{
    lemma_reads_escaped(s);
    assert(quoted(s).drop_first() == escaped(s) + seq!['\'']);
}

/// What sets a variable of a shell.
pub open spec fn export_text(name: Seq<char>, value: Seq<char>) -> Seq<char> {
    "export "@ + name + "="@ + quoted(value)
}

/// What takes a variable out of a shell.
pub open spec fn unset_text(name: Seq<char>) -> Seq<char> {
    "unset "@ + name
}

/// What sets a variable of a shell.
pub fn export_var(name: &str, value: &str) -> (r: String)
    ensures
        r@ == export_text(name@, value@),
{
    join3(join2("export ", name).as_str(), "=", shell_quote(value).as_str())
}

/// What takes a variable out of a shell.
pub fn unset_var(name: &str) -> (r: String)
    ensures
        r@ == unset_text(name@),
{
    join2("unset ", name)
}

/// What makes a shell use the account that was made ready for it.
pub fn build_activation_output(report: &SessionActivationReport) -> (r: String)
    ensures
        r@ == export_text(report.env_var@, report.runtime_home@),
{
    export_var(report.env_var.as_str(), report.runtime_home.as_str())
}

/// What makes a shell stop using an account.
pub fn build_deactivation_output(env_var: &str) -> (r: String)
    ensures
        r@ == unset_text(env_var@),
{
    unset_var(env_var)
}

} // verus!
