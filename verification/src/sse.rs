//! Server-sent events as the model APIs stream them: received bytes are cut
//! into lines at line feeds (a line may arrive split over several reads),
//! and the data of each `data:` line is picked out.

use vstd::prelude::*;
use crate::rewind::{from_utf8_lossy, utf8_lossy};
use crate::text::{
    chars_of, lemma_split_nl_nonempty, split_nl, starts_with, starts_with_chars, string_from_chars, strings_view,
    trim, trim_chars, trim_start, trim_start_chars,
};

verus! {

/// Each of `parts`, trimmed.
pub open spec fn trimmed(parts: Seq<Seq<char>>) -> Seq<Seq<char>> {
    parts.map_values(|p: Seq<char>| trim(p))
}

/// The lines completed by appending `text` to what was pending, and what
/// stays pending: the text is cut at every line feed, each complete line is
/// trimmed, and the part after the last line feed waits for more.
pub open spec fn cut_lines(pending: Seq<char>, text: Seq<char>) -> (Seq<Seq<char>>, Seq<char>) {
    let parts = split_nl(pending + text);
    (trimmed(parts.drop_last()), parts.last())
}

/// A reader of an event stream's lines.
#[derive(Debug)]
pub struct SseLines {
    pending: String,
}

impl SseLines {
    /// The received text not yet ended by a line feed.
    pub closed spec fn pending(&self) -> Seq<char> {
        self.pending@
    }

    pub fn new() -> (s: Self)
        ensures
            s.pending() == Seq::<char>::empty(),
    {
        SseLines { pending: String::new() }
    }

    /// Take in received text: the lines it completes, trimmed, in order.
    pub fn push_text(&mut self, text: &str) -> (lines: Vec<String>)
        ensures
            strings_view(lines@) == cut_lines(old(self).pending(), text@).0,
            final(self).pending() == cut_lines(old(self).pending(), text@).1,
    {
        let mut cs = chars_of(self.pending.as_str());
        let more = chars_of(text);
        let mut j: usize = 0;
        let ghost base = cs@;
        while j < more.len()
            invariant
                j <= more.len(),
                cs@ == base + more@.take(j as int),
            decreases more.len() - j,
        {
            cs.push(more[j]);
            j = j + 1;
            assert(cs@ =~= base + more@.take(j as int));
        }
        proof {
            assert(more@.take(more.len() as int) =~= more@);
            assert(cs@ =~= self.pending@ + text@);
        }
        let mut done: Vec<String> = Vec::new();
        let mut cur: Vec<char> = Vec::new();
        let mut i: usize = 0;
        proof {
            assert(cs@.take(0) =~= Seq::<char>::empty());
        }
        while i < cs.len()
            invariant
                i <= cs.len(),
                split_nl(cs@.take(i as int)).len() == done.len() + 1,
                strings_view(done@) == trimmed(split_nl(cs@.take(i as int)).drop_last()),
                cur@ == split_nl(cs@.take(i as int)).last(),
            decreases cs.len() - i,
        {
            let ghost before = cs@.take(i as int);
            let c = cs[i];
            proof {
                assert(cs@.take(i + 1).drop_last() =~= before);
                lemma_split_nl_nonempty(before);
            }
            if c == '\n' {
                let t = trim_chars(cur.as_slice());
                let line = string_from_chars(t.as_slice());
                let ghost prev = done@;
                done.push(line);
                cur = Vec::new();
                proof {
                    assert(strings_view(done@) =~= strings_view(prev).push(trim(split_nl(before).last())));
                }
            } else {
                cur.push(c);
            }
            i = i + 1;
            proof {
                let after = cs@.take(i as int);
                assert(after.drop_last() =~= before);
                assert(strings_view(done@) =~= trimmed(split_nl(after).drop_last()));
                assert(cur@ =~= split_nl(after).last());
            }
        }
        proof {
            assert(cs@.take(cs.len() as int) =~= cs@);
        }
        self.pending = string_from_chars(cur.as_slice());
        done
    }

    /// Take in received bytes, decoded as `String::from_utf8_lossy` decodes
    /// them: the lines they complete, trimmed, in order.
    pub fn push_bytes(&mut self, bytes: &[u8]) -> (lines: Vec<String>)
        ensures
            strings_view(lines@) == cut_lines(old(self).pending(), utf8_lossy(bytes@)).0,
            final(self).pending() == cut_lines(old(self).pending(), utf8_lossy(bytes@)).1,
    {
        let text = from_utf8_lossy(bytes);
        self.push_text(text.as_str())
    }
}

/// What follows `data:` on a line, without its leading white space; none
/// for a line of another field or an empty line.
pub open spec fn data_field(line: Seq<char>) -> Option<Seq<char>> {
    if line.len() == 0 || !starts_with(line, "data:"@) {
        None
    } else {
        Some(trim_start(line.skip(5)))
    }
}

/// The data of a line of a stream that ends with a `[DONE]` marker: the
/// data field, unless it is the marker.
pub open spec fn chat_data(line: Seq<char>) -> Option<Seq<char>> {
    match data_field(line) {
        Some(d) => if d == "[DONE]"@ { None } else { Some(d) },
        None => None,
    }
}

/// The data field of `line`.
pub fn line_data(line: &str) -> (r: Option<String>)
    ensures
        match r {
            Some(d) => data_field(line@) == Some(d@),
            None => data_field(line@) is None,
        },
{
    let cs = chars_of(line);
    let prefix = chars_of("data:");
    proof {
        reveal_strlit("data:");
    }
    if cs.len() == 0 || !starts_with_chars(cs.as_slice(), prefix.as_slice()) {
        return None;
    }
    let mut rest: Vec<char> = Vec::new();
    let mut i: usize = 5;
    while i < cs.len()
        invariant
            5 <= i <= cs@.len(),
            rest@ == cs@.subrange(5, i as int),
        decreases cs@.len() - i,
    {
        rest.push(cs[i]);
        i = i + 1;
        assert(rest@ =~= cs@.subrange(5, i as int));
    }
    assert(rest@ =~= cs@.skip(5));
    let d = trim_start_chars(rest.as_slice());
    Some(string_from_chars(d.as_slice()))
}

/// The data of a line of a stream that ends with a `[DONE]` marker.
pub fn chat_line_data(line: &str) -> (r: Option<String>)
    ensures
        match r {
            Some(d) => chat_data(line@) == Some(d@),
            None => chat_data(line@) is None,
        },
{
    match line_data(line) {
        Some(d) => {
            let cs = chars_of(d.as_str());
            let done = chars_of("[DONE]");
            proof {
                reveal_strlit("[DONE]");
            }
            if cs.len() == 6 && starts_with_chars(cs.as_slice(), done.as_slice()) {
                proof {
                    assert(cs@ =~= "[DONE]"@);
                }
                None
            } else {
                proof {
                    if d@ == "[DONE]"@ {
                        assert(cs@.take(6) =~= cs@);
                    }
                }
                Some(d)
            }
        },
        None => None,
    }
}

/// The data of a line of an OpenAI-compatible stream: what follows
/// `data: `, except for the `[DONE]` marker line; none for other lines.
pub open spec fn openai_data(line: Seq<char>) -> Option<Seq<char>> {
    if line.len() == 0 || line == "data: [DONE]"@ || !starts_with(line, "data: "@) {
        None
    } else {
        Some(line.skip(6))
    }
}

/// The data of a line of an OpenAI-compatible stream.
pub fn openai_line_data(line: &str) -> (r: Option<String>)
    ensures
        match r {
            Some(d) => openai_data(line@) == Some(d@),
            None => openai_data(line@) is None,
        },
{
    let cs = chars_of(line);
    let prefix = chars_of("data: ");
    let done = chars_of("data: [DONE]");
    proof {
        reveal_strlit("data: ");
        reveal_strlit("data: [DONE]");
    }
    if cs.len() == 0 {
        return None;
    }
    if cs.len() == 12 && starts_with_chars(cs.as_slice(), done.as_slice()) {
        proof {
            assert(cs@ =~= "data: [DONE]"@);
        }
        return None;
    }
    proof {
        if cs@ == "data: [DONE]"@ {
            assert(cs@.take(12) =~= cs@);
        }
    }
    if !starts_with_chars(cs.as_slice(), prefix.as_slice()) {
        return None;
    }
    let mut rest: Vec<char> = Vec::new();
    let mut i: usize = 6;
    while i < cs.len()
        invariant
            6 <= i <= cs@.len(),
            rest@ == cs@.subrange(6, i as int),
        decreases cs@.len() - i,
    {
        rest.push(cs[i]);
        i = i + 1;
        assert(rest@ =~= cs@.subrange(6, i as int));
    }
    assert(rest@ =~= cs@.skip(6));
    Some(string_from_chars(rest.as_slice()))
}

} // verus!
