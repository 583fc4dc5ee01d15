//! Structured user documents: ordered plain-text blocks and references to
//! files, directories, editor selections and images.

use vstd::prelude::*;
use crate::text::{all_ws, chars_of, is_blank, replace_all, replace_chars, string_from_chars, strip, strip_chars};

verus! {

/// A 1-based inclusive line range within a referenced file.
#[derive(Debug, Clone, Copy, PartialEq, Eq, Structural)]
pub struct RefRange {
    /// First line (1-based, inclusive).
    pub start: usize,
    /// Last line (1-based, inclusive).
    pub end: usize,
}

/// Lower (0-based) bound of the lines a range covers in a file of `n` lines.
pub open spec fn range_lo(r: RefRange) -> int {
    if r.start == 0 { 0 } else { r.start - 1 }
}

/// Upper (exclusive) bound of the lines a range covers in a file of `n` lines.
pub open spec fn range_hi(r: RefRange, n: int) -> int {
    if r.end < n { r.end as int } else { n }
}

impl RefRange {
    /// The lines of `lines` this range covers: `lines[start-1 .. min(end, len)]`,
    /// empty when that span is empty.
    pub fn slice<'a>(&self, lines: &'a [String]) -> (r: &'a [String])
        ensures
            range_lo(*self) >= range_hi(*self, lines@.len() as int) ==> r@.len() == 0,
            range_lo(*self) < range_hi(*self, lines@.len() as int) ==> r@ == lines@.subrange(
                range_lo(*self),
                range_hi(*self, lines@.len() as int),
            ),
    {
        let lo = if self.start == 0 { 0 } else { self.start - 1 };
        let hi = if self.end < lines.len() { self.end } else { lines.len() };
        if lo >= hi {
            return &lines[0..0];
        }
        &lines[lo..hi]
    }

    /// Valid when `1 <= start <= end`.
    pub fn is_valid(&self) -> (b: bool)
        ensures
            b == (self.start >= 1 && self.end >= self.start),
    {
        self.start >= 1 && self.end >= self.start
    }
}

/// What a reference points at.
#[derive(Debug, Clone, Copy, PartialEq, Eq, Structural)]
pub enum RefKind {
    /// A whole file.
    File,
    /// A directory, read recursively up to a depth.
    Dir,
    /// A range of lines, optionally with the snippet captured at reference time.
    Selection,
    /// An image attachment.
    Image,
}

/// One block of a [`UserDoc`].
#[derive(Debug)]
pub enum DocBlock {
    /// Plain text written by the user.
    Text { text: String },
    /// A reference to something on disk.
    Ref {
        kind: RefKind,
        path: String,
        /// Line range of a selection.
        range: Option<RefRange>,
        /// Snippet captured for a selection.
        snippet: Option<String>,
        /// Recursion depth of a directory reference (1 = direct children).
        depth: Option<u8>,
    },
}

impl Clone for DocBlock {
    fn clone(&self) -> (r: Self)
        ensures
            r == *self,
    {
        match self {
            DocBlock::Text { text } => DocBlock::Text { text: text.clone() },
            DocBlock::Ref { kind, path, range, snippet, depth } => DocBlock::Ref {
                kind: *kind,
                path: path.clone(),
                range: *range,
                snippet: snippet.clone(),
                depth: *depth,
            },
        }
    }
}

/// `b` is a whole-file reference to `path`.
pub open spec fn is_file_ref(b: DocBlock, path: Seq<char>) -> bool {
    b matches DocBlock::Ref { kind, path: p, range, snippet, depth } && kind == RefKind::File
        && p@ == path && range is None && snippet is None && depth is None
}

impl DocBlock {
    /// A text block.
    pub fn text(s: String) -> (b: Self)
        ensures
            b == (DocBlock::Text { text: s }),
    {
        DocBlock::Text { text: s }
    }

    /// A whole-file reference.
    pub fn file_ref(path: String) -> (b: Self)
        ensures
            b == (DocBlock::Ref { kind: RefKind::File, path, range: None, snippet: None, depth: None }),
    {
        DocBlock::Ref { kind: RefKind::File, path, range: None, snippet: None, depth: None }
    }

    /// A directory reference.
    pub fn dir_ref(path: String, depth: Option<u8>) -> (b: Self)
        ensures
            b == (DocBlock::Ref { kind: RefKind::Dir, path, range: None, snippet: None, depth }),
    {
        DocBlock::Ref { kind: RefKind::Dir, path, range: None, snippet: None, depth }
    }

    /// A selection reference.
    pub fn selection_ref(path: String, range: RefRange, snippet: Option<String>) -> (b: Self)
        ensures
            b == (DocBlock::Ref {
                kind: RefKind::Selection,
                path,
                range: Some(range),
                snippet,
                depth: None,
            }),
    {
        DocBlock::Ref { kind: RefKind::Selection, path, range: Some(range), snippet, depth: None }
    }

    /// An image reference.
    pub fn image_ref(path: String) -> (b: Self)
        ensures
            b == (DocBlock::Ref { kind: RefKind::Image, path, range: None, snippet: None, depth: None }),
    {
        DocBlock::Ref { kind: RefKind::Image, path, range: None, snippet: None, depth: None }
    }

    /// Whether this block is a reference.
    pub fn is_ref(&self) -> (b: bool)
        ensures
            b == (*self is Ref),
    {
        match self {
            DocBlock::Ref { .. } => true,
            DocBlock::Text { .. } => false,
        }
    }
}

/// A blank block: text that is empty after trimming.
pub open spec fn is_blank_block(b: DocBlock) -> bool {
    b matches DocBlock::Text { text } && all_ws(text@)
}

/// Text `content` after removing each `@ref` token and, when there are
/// references, every `@/`, one reference at a time in order.
pub open spec fn strip_ref_tokens(content: Seq<char>, refs: Seq<Seq<char>>) -> Seq<char>
    decreases refs.len(),
{
    if refs.len() == 0 {
        content
    } else {
        let prev = strip_ref_tokens(content, refs.drop_last());
        replace_all(replace_all(prev, seq!['@'] + refs.last(), Seq::empty()), "@/"@, Seq::empty())
    }
}

/// The text block `from_text` keeps: the stripped content with leading and
/// trailing newlines removed.
pub open spec fn from_text_body(content: Seq<char>, refs: Seq<Seq<char>>) -> Seq<char> {
    strip(strip_ref_tokens(content, refs), false, '\n')
}

/// An ordered, structured user document.
#[derive(Debug)]
pub struct UserDoc {
    pub blocks: Vec<DocBlock>,
}

impl UserDoc {
    /// An empty document.
    pub fn new() -> (d: Self)
        ensures
            d.blocks@.len() == 0,
    {
        UserDoc { blocks: Vec::new() }
    }

    /// A document holding `blocks`.
    pub fn from_blocks(blocks: Vec<DocBlock>) -> (d: Self)
        ensures
            d.blocks == blocks,
    {
        UserDoc { blocks }
    }

    /// Empty when it has no blocks or every block is blank text.
    pub fn is_empty(&self) -> (b: bool)
        ensures
            b == forall|i: int| 0 <= i < self.blocks@.len() ==> is_blank_block(#[trigger] self.blocks@[i]),
    {
        let mut i: usize = 0;
        while i < self.blocks.len()
            invariant
                i <= self.blocks@.len(),
                forall|k: int| 0 <= k < i ==> is_blank_block(#[trigger] self.blocks@[k]),
            decreases self.blocks@.len() - i,
        {
            match &self.blocks[i] {
                DocBlock::Text { text } => {
                    let cs = chars_of(text.as_str());
                    if !is_blank(cs.as_slice()) {
                        return false;
                    }
                },
                DocBlock::Ref { .. } => {
                    return false;
                },
            }
            i = i + 1;
        }
        true
    }

    /// All reference blocks, in document order.
    pub fn refs(&self) -> (r: Vec<DocBlock>)
        ensures
            r@ == self.blocks@.filter(|b: DocBlock| b is Ref),
    {
        let mut r: Vec<DocBlock> = Vec::new();
        let mut i: usize = 0;
        while i < self.blocks.len()
            invariant
                i <= self.blocks@.len(),
                r@ == self.blocks@.take(i as int).filter(|b: DocBlock| b is Ref),
            decreases self.blocks@.len() - i,
        {
            proof {
                reveal_with_fuel(Seq::filter, 1);
                assert(self.blocks@.take(i + 1).drop_last() =~= self.blocks@.take(i as int));
            }
            if self.blocks[i].is_ref() {
                r.push(self.blocks[i].clone());
            }
            i = i + 1;
        }
        assert(self.blocks@.take(i as int) =~= self.blocks@);
        r
    }

    /// Parse a plain message that uses `@path` references: the text with the
    /// `@path` tokens removed (and surrounding newlines trimmed) becomes a
    /// leading text block when non-empty, followed by one file reference per
    /// path in order.
    pub fn from_text(content: &str, references: &[String]) -> (d: Self)
        ensures
            ({
                let body = from_text_body(content@, references@.map_values(|r: String| r@));
                let off: int = if body.len() > 0 { 1 } else { 0 };
                &&& d.blocks@.len() == off + references@.len()
                &&& body.len() > 0 ==> (d.blocks@[0] matches DocBlock::Text { text } && text@ == body)
                &&& forall|i: int|
                    0 <= i < references@.len() ==> is_file_ref(
                        #[trigger] d.blocks@[off + i],
                        references@[i]@,
                    )
            }),
    {
        let ghost refs = references@.map_values(|r: String| r@);
        let mut s = chars_of(content);
        let at_slash = chars_of("@/");
        proof {
            reveal_strlit("@/");
        }
        let empty: Vec<char> = Vec::new();
        let mut k: usize = 0;
        while k < references.len()
            invariant
                k <= references@.len(),
                refs == references@.map_values(|r: String| r@),
                at_slash@ == "@/"@,
                at_slash@.len() == 2,
                empty@.len() == 0,
                s@ == strip_ref_tokens(content@, refs.take(k as int)),
            decreases references@.len() - k,
        {
            let mut pat: Vec<char> = Vec::new();
            pat.push('@');
            let r = chars_of(references[k].as_str());
            let mut j: usize = 0;
            while j < r.len()
                invariant
                    j <= r@.len(),
                    pat@ == seq!['@'] + r@.take(j as int),
                decreases r@.len() - j,
            {
                pat.push(r[j]);
                j = j + 1;
                assert(r@.take(j as int) =~= r@.take(j - 1).push(r@[j - 1]));
            }
            assert(r@.take(j as int) =~= r@);
            let once = replace_chars(s.as_slice(), pat.as_slice(), empty.as_slice());
            s = replace_chars(once.as_slice(), at_slash.as_slice(), empty.as_slice());
            proof {
                assert(refs.take(k + 1).drop_last() =~= refs.take(k as int));
                assert(refs.take(k + 1).last() == references@[k as int]@);
                assert(empty@ =~= Seq::<char>::empty());
            }
            k = k + 1;
        }
        assert(refs.take(k as int) =~= refs);
        let cleaned = strip_chars(s.as_slice(), false, '\n');
        let mut blocks: Vec<DocBlock> = Vec::new();
        if cleaned.len() > 0 {
            blocks.push(DocBlock::text(string_from_chars(cleaned.as_slice())));
        }
        let ghost off: int = blocks@.len() as int;
        let mut i: usize = 0;
        while i < references.len()
            invariant
                i <= references@.len(),
                blocks@.len() == off + i,
                off == if cleaned@.len() > 0 { 1int } else { 0int },
                cleaned@.len() > 0 ==> (blocks@[0] matches DocBlock::Text { text } && text@ == cleaned@),
                forall|j: int| 0 <= j < i ==> is_file_ref(#[trigger] blocks@[off + j], references@[j]@),
            decreases references@.len() - i,
        {
            blocks.push(DocBlock::file_ref(references[i].clone()));
            i = i + 1;
        }
        UserDoc { blocks }
    }
}

} // verus!
