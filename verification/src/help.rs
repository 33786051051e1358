use crate::text::{blanks, views};
use crate::texts::{KEYMAP_HELP_CONTEXTS, KEYMAP_HELP_OPENING};
use crate::vocabulary::{entry_descriptions, Vocabulary};
use vstd::prelude::*;
use vstd::string::*;
use vstd::utf8::encode_utf8;

verus! {

/// The number of bytes that a text occupies in UTF-8.
pub open spec fn byte_len(s: Seq<char>) -> nat {
    encode_utf8(s).len()
}

/// The byte length of the longest name in the list, 0 for an empty list.
pub open spec fn widest(names: Seq<Seq<char>>) -> nat
    decreases names.len(),
{
    if names.len() == 0 {
        0
    } else {
        let rest = widest(names.drop_last());
        if byte_len(names.last()) > rest {
            byte_len(names.last())
        } else {
            rest
        }
    }
}

/// One line of a listing: a margin of four blanks, the name, blanks up to
/// two columns past the widest name, then the description.
pub open spec fn listing_line(name: Seq<char>, description: Seq<char>, width: nat) -> Seq<char> {
    blanks(4) + name + blanks((width - byte_len(name) + 2) as nat) + description
}

/// The first `count` lines of a listing, separated by line feeds.
pub open spec fn listing_lines(
    names: Seq<Seq<char>>,
    descriptions: Seq<Seq<char>>,
    width: nat,
    count: nat,
) -> Seq<char>
    decreases count,
{
    if count == 0 {
        Seq::<char>::empty()
    } else if count == 1 {
        listing_line(names[0], descriptions[0], width)
    } else {
        listing_lines(names, descriptions, width, (count - 1) as nat) + seq!['\n'] + listing_line(
            names[count - 1],
            descriptions[count - 1],
            width,
        )
    }
}

/// The number of lines in a listing: a name without a description, or a
/// description without a name, gets no line.
pub open spec fn listing_count(names: Seq<Seq<char>>, descriptions: Seq<Seq<char>>) -> nat {
    if names.len() <= descriptions.len() {
        names.len()
    } else {
        descriptions.len()
    }
}

/// The column-aligned listing of names with their descriptions. The column
/// width is taken from all the names given.
pub open spec fn listing(names: Seq<Seq<char>>, descriptions: Seq<Seq<char>>) -> Seq<char> {
    listing_lines(names, descriptions, widest(names), listing_count(names, descriptions))
}

/// No name is wider than the widest.
pub proof fn lemma_widest_bounds(names: Seq<Seq<char>>, i: int)
    requires
        0 <= i < names.len(),
    ensures
        byte_len(names[i]) <= widest(names),
    decreases names.len(),
{
    if i < names.len() - 1 {
        lemma_widest_bounds(names.drop_last(), i);
    }
}

/// The byte length of the longest of the given names.
fn widest_name(variants: &[String]) -> (width: usize)
    ensures
        width == widest(views(variants@)),
{
    let mut width: usize = 0;
    let mut i: usize = 0;
    while i < variants.len()
        invariant
            i <= variants.len(),
            width == widest(views(variants@).take(i as int)),
        decreases variants.len() - i,
    {
        let n = variants[i].as_str().as_bytes().len();
        assert(views(variants@).take(i as int + 1).drop_last() =~= views(variants@).take(
            i as int,
        ));
        assert(views(variants@).take(i as int + 1).last() == variants@[i as int]@);
        if n > width {
            width = n;
        }
        i = i + 1;
    }
    assert(views(variants@).take(i as int) =~= views(variants@));
    width
}

/// Appends `count` blanks to `out`.
fn push_blanks(out: &mut String, count: usize)
    ensures
        final(out)@ == old(out)@ + blanks(count as nat),
{
    let mut done: usize = 0;
    assert(out@ =~= old(out)@ + blanks(0));
    while done < count
        invariant
            done <= count,
            out@ == old(out)@ + blanks(done as nat),
        decreases count - done,
    {
        proof {
            reveal_strlit(" ");
            assert(blanks(done as nat) + " "@ =~= blanks((done + 1) as nat));
        }
        let ghost before = out@;
        out.append(" ");
        assert(out@ =~= old(out)@ + blanks((done + 1) as nat));
        done = done + 1;
    }
}

/// Lays out names and their descriptions in two columns, one entry per
/// line: each line is indented by four blanks, and the descriptions start
/// two columns past the longest name, measured in bytes. Lines are
/// separated by a line feed; the last line has none.
pub fn justify_and_indent(variants: &[String], descriptions: &[String]) -> (text: String)
    requires
        variants@.len() > 0,
    ensures
        text@ == listing(views(variants@), views(descriptions@)),
{
    let width = widest_name(variants);
    let count = if variants.len() <= descriptions.len() {
        variants.len()
    } else {
        descriptions.len()
    };
    let ghost names = views(variants@);
    let ghost texts = views(descriptions@);
    let mut text = String::new();
    let mut i: usize = 0;
    while i < count
        invariant
            i <= count,
            count == listing_count(names, texts),
            names == views(variants@),
            texts == views(descriptions@),
            width == widest(names),
            text@ == listing_lines(names, texts, width as nat, i as nat),
        decreases count - i,
    {
        let ghost before = text@;
        if i > 0 {
            proof {
                reveal_strlit("\n");
                assert("\n"@ =~= seq!['\n']);
            }
            text.append("\n");
        }
        let name = variants[i].as_str();
        let used = name.as_bytes().len();
        proof {
            lemma_widest_bounds(names, i as int);
            reveal_strlit("    ");
            assert("    "@ =~= blanks(4));
            reveal_strlit("  ");
            assert("  "@ =~= blanks(2));
            assert(blanks((width - used) as nat) + blanks(2) =~= blanks(
                (width - used + 2) as nat,
            ));
        }
        text.append("    ");
        text.append(name);
        push_blanks(&mut text, width - used);
        text.append("  ");
        text.append(descriptions[i].as_str());
        assert(text@ =~= (if i > 0 {
            before + seq!['\n']
        } else {
            before
        }) + listing_line(names[i as int], texts[i as int], width as nat));
        i = i + 1;
    }
    text
}

/// The documentation of the keymap option around the two listings.
pub open spec fn keymap_help_text(actions: Seq<char>, contexts: Seq<char>) -> Seq<char> {
    KEYMAP_HELP_OPENING@ + actions + KEYMAP_HELP_CONTEXTS@ + contexts + seq!['\n']
}

/// The documentation of the keymap option: its grammar and examples, then
/// the actions and the contexts of the vocabulary, each list in two
/// aligned columns. The lists are those that the parser accepts.
pub fn keymap_help(vocabulary: &Vocabulary) -> (text: String)
    ensures
        text@ == keymap_help_text(
            listing(vocabulary.action_names(), entry_descriptions(vocabulary.actions@)),
            listing(vocabulary.context_names(), entry_descriptions(vocabulary.contexts@)),
        ),
{
    let actions = vocabulary.action_listing();
    let contexts = vocabulary.context_listing();
    let mut text = String::new();
    text.append(KEYMAP_HELP_OPENING);
    text.append(actions.as_str());
    text.append(KEYMAP_HELP_CONTEXTS);
    text.append(contexts.as_str());
    proof {
        reveal_strlit("\n");
        assert("\n"@ =~= seq!['\n']);
    }
    text.append("\n");
    text
}

} // verus!
