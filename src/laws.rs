use vstd::prelude::*;

use crate::state::{
    attribute_fragment, attribute_spec, close_spec, end_spec, end_tag, indent, spaces, start_spec,
    terminator, WriterState,
};
use crate::status::Status;

verus! {

/// The fragments of a run of attributes, in the order written.
pub open spec fn attributes_text(attrs: Seq<(Seq<char>, Seq<char>)>) -> Seq<char>
    decreases attrs.len(),
{
    if attrs.len() == 0 {
        Seq::empty()
    } else {
        attributes_text(attrs.drop_last()) + attribute_fragment(attrs.last().0, attrs.last().1)
    }
}

/// The state after writing each attribute of `attrs` in turn.
pub open spec fn attributes_spec(s: WriterState, attrs: Seq<(Seq<char>, Seq<char>)>) -> WriterState
    decreases attrs.len(),
{
    if attrs.len() == 0 {
        s
    } else {
        let last = attrs.last();
        attribute_spec(attributes_spec(s, attrs.drop_last()), last.0, last.1)
    }
}

/// The end tags of `tags`, innermost first, each on its own line at its depth.
pub open spec fn end_tags(tags: Seq<Seq<char>>) -> Seq<char>
    decreases tags.len(),
{
    if tags.len() == 0 {
        Seq::empty()
    } else {
        indent((tags.len() - 1) as nat) + end_tag(tags.last()) + end_tags(tags.drop_last())
    }
}

proof fn lemma_attributes(s: WriterState, attrs: Seq<(Seq<char>, Seq<char>)>)
    ensures
        attributes_spec(s, attrs) == (WriterState { out: s.out + attributes_text(attrs), ..s }),
    decreases attrs.len(),
{
    if attrs.len() == 0 {
        assert(s.out + attributes_text(attrs) =~= s.out);
    } else {
        lemma_attributes(s, attrs.drop_last());
        let last = attrs.last();
        assert(s.out + attributes_text(attrs.drop_last()) + attribute_fragment(last.0, last.1)
            =~= s.out + attributes_text(attrs));
    }
}

/// An element given only attributes, then closed, collapses to
/// `<tag key="value" .../>` with no end tag, and leaves the open elements as
/// they were.
pub proof fn law_self_closing(s: WriterState, tag: Seq<char>, attrs: Seq<(Seq<char>, Seq<char>)>)
    ensures
        close_spec(attributes_spec(start_spec(s, tag), attrs)) == (WriterState {
            out: s.out + terminator(s.status) + indent(s.tags.len()) + "<"@ + tag
                + attributes_text(attrs) + "/>"@,
            tags: s.tags,
            status: Status::Closed,
        }),
{
    let st = start_spec(s, tag);
    lemma_attributes(st, attrs);
    assert(st.tags.drop_last() =~= s.tags);
}

proof fn lemma_end_from_closed(s: WriterState)
    requires
        s.status == Status::Closed,
    ensures
        end_spec(s) == (WriterState {
            out: s.out + end_tags(s.tags),
            tags: Seq::empty(),
            status: Status::Closed,
        }),
    decreases s.tags.len(),
{
    if s.tags.len() == 0 {
        assert(s.out + end_tags(s.tags) =~= s.out);
        assert(s.tags =~= Seq::<Seq<char>>::empty());
    } else {
        let c = close_spec(s);
        lemma_end_from_closed(c);
        assert(c.out + end_tags(c.tags) =~= s.out + end_tags(s.tags));
    }
}

/// Ending the document closes every open element in reverse order of
/// opening: the innermost is closed as `close_element` would close it, then
/// each enclosing one gets its end tag on its own line at its depth. No
/// element is left open.
pub proof fn law_end_closes_in_reverse(s: WriterState)
    ensures
        end_spec(s).tags.len() == 0,
        s.tags.len() > 0 ==> end_spec(s).status == Status::Closed,
        s.tags.len() > 0 ==> end_spec(s).out == close_spec(s).out + end_tags(
            s.tags.drop_last(),
        ),
        s.status == Status::Closed ==> end_spec(s).out == s.out + end_tags(s.tags),
{
    if s.tags.len() > 0 {
        lemma_end_from_closed(close_spec(s));
    }
    if s.status == Status::Closed {
        lemma_end_from_closed(s);
    }
}

/// Ending a document that has no open element changes nothing, and ending it
/// twice is the same as ending it once.
pub proof fn law_end_idempotent(s: WriterState)
    ensures
        s.tags.len() == 0 ==> end_spec(s) == s,
        end_spec(end_spec(s)) == end_spec(s),
{
    law_end_closes_in_reverse(s);
}

proof fn lemma_spaces(n: nat)
    ensures
        spaces(n).len() == 4 * n,
        forall|i: int| 0 <= i < spaces(n).len() ==> #[trigger] spaces(n)[i] == ' ',
    decreases n,
{
    reveal_strlit("    ");
    if n > 0 {
        lemma_spaces((n - 1) as nat);
    }
}

/// An indentation line break is followed by exactly four spaces per level of
/// depth; starting an element goes one level deeper, closing one goes one
/// level up, and each writes its line break at the depth it stands at.
pub proof fn law_indentation(s: WriterState, tag: Seq<char>, depth: nat)
    ensures
        indent(depth).len() == 4 * depth + 1,
        indent(depth)[0] == '\n',
        forall|i: int| 1 <= i < indent(depth).len() ==> #[trigger] indent(depth)[i] == ' ',
        start_spec(s, tag).tags.len() == s.tags.len() + 1,
        start_spec(s, tag).out == s.out + terminator(s.status) + indent(s.tags.len()) + "<"@ + tag,
        s.tags.len() > 0 ==> close_spec(s).tags.len() == s.tags.len() - 1,
        s.tags.len() > 0 && s.status == Status::Closed ==> close_spec(s).out == s.out + indent(
            (s.tags.len() - 1) as nat,
        ) + end_tag(s.tags.last()),
{
    reveal_strlit("\n");
    lemma_spaces(depth);
    assert forall|i: int| 1 <= i < indent(depth).len() implies #[trigger] indent(depth)[i] == ' ' by {
        assert(indent(depth)[i] == spaces(depth)[i - 1]);
    }
}

} // verus!
