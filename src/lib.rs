use vstd::prelude::*;

pub mod escape;
pub mod laws;
pub mod state;
pub mod status;

use crate::escape::{escape, lemma_escape_push};
use crate::state::{
    attribute_spec, close_spec, comment_spec, declaration_spec, end_spec, indent,
    initial_state, spaces, start_spec, text_spec, WriterState,
};
pub use crate::status::Status;

verus! {

/// A forward-only XML writer that keeps the emitted text in memory.
pub struct XmlWriter {
    out: String,
    status: Status,
    tags: Vec<String>,
}

impl View for XmlWriter {
    type V = WriterState;

    closed spec fn view(&self) -> WriterState {
        WriterState {
            out: self.out@,
            tags: self.tags@.map_values(|t: String| t@),
            status: self.status,
        }
    }
}

impl Default for XmlWriter {
    fn default() -> (w: Self)
        ensures
            w@ == initial_state(),
    {
        Self::new()
    }
}

impl XmlWriter {
    /// An empty writer: no text, no open element.
    pub fn new() -> (w: Self)
        ensures
            w@ == initial_state(),
    {
        let w = XmlWriter { out: String::new(), status: Status::Closed, tags: Vec::new() };
        assert(w@.tags =~= Seq::<Seq<char>>::empty());
        w
    }

    /// Closes every open element and returns the text held: the whole document,
    /// unless part of it was handed out by `take_output` before.
    pub fn end_document(&mut self) -> (r: String)
        ensures
            final(self)@ == end_spec(old(self)@),
            r@ == end_spec(old(self)@).out,
    {
        self.end_document_no_return();
        self.out.clone()
    }

    /// Closes every open element, innermost first.
    pub fn end_document_no_return(&mut self)
        ensures
            final(self)@ == end_spec(old(self)@),
    {
        while self.tags.len() > 0
            invariant
                end_spec(self@) == end_spec(old(self)@),
            decreases self.tags.len(),
        {
            self.close_element();
        }
    }

    /// Hands out the text written since the last call and forgets it, leaving
    /// the open elements and the status as they were.
    pub fn take_output(&mut self) -> (r: String)
        ensures
            r@ == old(self)@.out,
            final(self)@ == (WriterState { out: Seq::empty(), ..old(self)@ }),
    {
        let r = self.out.clone();
        self.out = String::new();
        r
    }

    /// Opens the element `tag`, leaving its start tag open for attributes.
    pub fn start_element(&mut self, tag: &str)
        ensures
            final(self)@ == start_spec(old(self)@, tag@),
    {
        match self.status {
            Status::Closed => {},
            _ => self.write(">"),
        }
        self.indent();
        self.write("<");
        self.write(tag);
        self.tags.push(tag.to_string());
        self.status = Status::Open;
        assert(self@.tags =~= old(self)@.tags.push(tag@));
        assert(self@.out =~= start_spec(old(self)@, tag@).out);
    }

    /// Closes the innermost open element; does nothing when none is open.
    pub fn close_element(&mut self)
        ensures
            final(self)@ == close_spec(old(self)@),
    {
        let ghost pre = self@;
        if let Some(tag) = self.tags.pop() {
            assert(self@.tags =~= pre.tags.drop_last());
            match self.status {
                Status::Open => {
                    self.write("/>");
                },
                _ => {
                    match self.status {
                        Status::Closed => self.indent(),
                        _ => {},
                    }
                    self.write("</");
                    self.write(tag.as_str());
                    self.write(">");
                },
            }
            self.status = Status::Closed;
            assert(self@.out =~= close_spec(pre).out);
        }
    }

    /// Adds ` key="value"` to the pending start tag, the value escaped.
    pub fn write_attribute(&mut self, key: &str, val: &str)
        ensures
            final(self)@ == attribute_spec(old(self)@, key@, val@),
    {
        let v = Self::xml_encode(val);
        self.write(" ");
        self.write(key);
        self.write("=\"");
        self.write(v.as_str());
        self.write("\"");
        assert(self@.out =~= attribute_spec(old(self)@, key@, val@).out);
    }

    /// Writes escaped text inside the innermost element.
    pub fn write_text(&mut self, text: &str)
        ensures
            final(self)@ == text_spec(old(self)@, text@),
    {
        match self.status {
            Status::Inside => {},
            _ => {
                self.write(">");
                self.status = Status::Inside;
            },
        }
        let t = Self::xml_encode(text);
        self.write(t.as_str());
    }

    /// Writes `<!-- comment -->` on its own line, verbatim.
    pub fn write_comment(&mut self, comment: &str)
        ensures
            final(self)@ == comment_spec(old(self)@, comment@),
    {
        self.indent();
        self.write("<!-- ");
        self.write(comment);
        self.write(" -->");
        assert(self@.out =~= comment_spec(old(self)@, comment@).out);
    }

    /// Writes the XML prolog.
    pub fn write_declaration(&mut self)
        ensures
            final(self)@ == declaration_spec(old(self)@),
    {
        self.write("<?xml version=\"1.0\" encoding=\"UTF-8\"?>");
    }

    fn write(&mut self, s: &str)
        ensures
            final(self)@ == (WriterState { out: old(self)@.out + s@, ..old(self)@ }),
    {
        self.out.append(s);
    }

    fn indent(&mut self)
        ensures
            final(self)@ == (WriterState { out: old(self)@.out + indent(old(self)@.tags.len()), ..old(self)@ }),
    {
        self.write("\n");
        let n = self.tags.len();
        let mut i: usize = 0;
        while i < n
            invariant
                i <= n,
                n == self@.tags.len(),
                self@ == (WriterState { out: old(self)@.out + "\n"@ + spaces(i as nat), ..old(self)@ }),
            decreases n - i,
        {
            self.write("    ");
            i += 1;
            assert(self@.out =~= old(self)@.out + "\n"@ + spaces(i as nat));
        }
        assert(self@.out =~= old(self)@.out + indent(n as nat));
    }

    /// `text` with `&`, `<`, `>`, `"` and `'` replaced by their entities.
    pub fn xml_encode(text: &str) -> (r: String)
        ensures
            r@ == escape(text@),
    {
        let n = text.unicode_len();
        let mut r = String::new();
        let mut i: usize = 0;
        while i < n
            invariant
                i <= n,
                n == text@.len(),
                r@ == escape(text@.subrange(0, i as int)),
            decreases n - i,
        {
            let c = text.get_char(i);
            proof {
                lemma_escape_push(text@.subrange(0, i as int), c);
                assert(text@.subrange(0, i + 1) =~= text@.subrange(0, i as int).push(c));
            }
            if c == '&' {
                r.append("&amp;");
            } else if c == '<' {
                r.append("&lt;");
            } else if c == '>' {
                r.append("&gt;");
            } else if c == '"' {
                r.append("&quot;");
            } else if c == '\'' {
                r.append("&apos;");
            } else {
                let one = text.substring_char(i, i + 1);
                assert(one@ =~= seq![c]);
                r.append(one);
            }
            i += 1;
        }
        assert(text@.subrange(0, n as int) =~= text@);
        r
    }
}

} // verus!
