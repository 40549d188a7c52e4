use vstd::prelude::*;

use crate::escape::escape;
use crate::status::Status;

verus! {

/// What a writer holds, as mathematical values: the text emitted so far, the
/// names of the open elements (outermost first) and the status of the innermost one.
pub struct WriterState {
    pub out: Seq<char>,
    pub tags: Seq<Seq<char>>,
    pub status: Status,
}

/// The state of a fresh writer.
pub open spec fn initial_state() -> WriterState {
    WriterState { out: Seq::empty(), tags: Seq::empty(), status: Status::Closed }
}

/// `n` indentation units of four spaces each.
pub open spec fn spaces(n: nat) -> Seq<char>
    decreases n,
{
    if n == 0 {
        Seq::empty()
    } else {
        spaces((n - 1) as nat) + "    "@
    }
}

/// A line break followed by the indentation of nesting depth `depth`.
pub open spec fn indent(depth: nat) -> Seq<char> {
    "\n"@ + spaces(depth)
}

/// What is emitted to terminate a pending start tag before new content.
pub open spec fn terminator(status: Status) -> Seq<char> {
    if status == Status::Closed {
        Seq::empty()
    } else {
        ">"@
    }
}

/// The fragment ` key="value"` with the value escaped.
pub open spec fn attribute_fragment(key: Seq<char>, value: Seq<char>) -> Seq<char> {
    " "@ + key + "=\""@ + escape(value) + "\""@
}

/// The end tag `</tag>`.
pub open spec fn end_tag(tag: Seq<char>) -> Seq<char> {
    "</"@ + tag + ">"@
}

/// The comment `<!-- text -->`, not escaped.
pub open spec fn comment_fragment(text: Seq<char>) -> Seq<char> {
    "<!-- "@ + text + " -->"@
}

/// The XML prolog.
pub open spec fn declaration() -> Seq<char> {
    "<?xml version=\"1.0\" encoding=\"UTF-8\"?>"@
}

/// Opening an element: terminate the pending start tag, if any, break the line,
/// indent to the current depth and write `<tag`; the new tag is left open.
pub open spec fn start_spec(s: WriterState, tag: Seq<char>) -> WriterState {
    WriterState {
        out: s.out + terminator(s.status) + indent(s.tags.len()) + "<"@ + tag,
        tags: s.tags.push(tag),
        status: Status::Open,
    }
}

/// Writing an attribute appends its fragment and changes nothing else.
pub open spec fn attribute_spec(s: WriterState, key: Seq<char>, value: Seq<char>) -> WriterState {
    WriterState { out: s.out + attribute_fragment(key, value), ..s }
}

/// Writing text: terminate the start tag unless text was already written
/// inside it, then append the escaped text.
pub open spec fn text_spec(s: WriterState, text: Seq<char>) -> WriterState {
    WriterState {
        out: s.out + (if s.status == Status::Inside {
            Seq::empty()
        } else {
            ">"@
        }) + escape(text),
        status: Status::Inside,
        ..s
    }
}

/// Closing the innermost element. With nothing open this changes nothing. A
/// start tag still open collapses to `/>`. Otherwise the end tag follows the
/// text directly, or stands on its own line after closed children.
pub open spec fn close_spec(s: WriterState) -> WriterState {
    if s.tags.len() == 0 {
        s
    } else if s.status == Status::Open {
        WriterState { out: s.out + "/>"@, tags: s.tags.drop_last(), status: Status::Closed }
    } else {
        WriterState {
            out: s.out + (if s.status == Status::Closed {
                indent((s.tags.len() - 1) as nat)
            } else {
                Seq::empty()
            }) + end_tag(s.tags.last()),
            tags: s.tags.drop_last(),
            status: Status::Closed,
        }
    }
}

/// Writing a comment on its own line at the current depth.
pub open spec fn comment_spec(s: WriterState, text: Seq<char>) -> WriterState {
    WriterState { out: s.out + indent(s.tags.len()) + comment_fragment(text), ..s }
}

/// Writing the prolog, with no line break before it.
pub open spec fn declaration_spec(s: WriterState) -> WriterState {
    WriterState { out: s.out + declaration(), ..s }
}

/// Ending the document: close the innermost element until none is open.
pub open spec fn end_spec(s: WriterState) -> WriterState
    decreases s.tags.len(),
{
    if s.tags.len() == 0 {
        s
    } else {
        end_spec(close_spec(s))
    }
}

} // verus!
