//! Events of an installation run, and how they are rendered and named.

use crate::text::after_last;
use crate::text::chars_of;
use crate::text::count_trailing;
use crate::text::decimal;
use crate::text::decimal_string;
use crate::text::lemma_trailing_run;
use crate::text::substring;
use crate::text::CharClass;
use vstd::prelude::*;
use vstd::string::*;

verus! {

/// One unit of installer output.
#[derive(Debug, PartialEq, Eq)]
pub enum Event {
    /// A line of text.
    Text(String),
    /// A named binary blob: its identifier and its bytes.
    Raw(String, Vec<u8>),
}

/// What an [`Event`] holds.
pub enum EventView {
    Text(Seq<char>),
    Raw(Seq<char>, Seq<u8>),
}

impl View for Event {
    type V = EventView;

    open spec fn view(&self) -> EventView {
        match self {
            Event::Text(text) => EventView::Text(text@),
            Event::Raw(ident, data) => EventView::Raw(ident@, data@),
        }
    }
}

impl EventView {
    /// The event as the log shows it: a text event as itself, a binary one
    /// as `binary:`, its identifier, `:` and the number of its bytes.
    pub open spec fn rendered(self) -> Seq<char> {
        match self {
            EventView::Text(text) => text,
            EventView::Raw(ident, data) => "binary:"@ + ident + ":"@ + decimal(data.len()),
        }
    }
}

impl Event {
    /// The event as the log shows it. The bytes of a binary event are never
    /// part of it.
    pub fn to_string(&self) -> (r: String)
        ensures
            r@ == self@.rendered(),
    {
        match self {
            Event::Text(text) => text.clone(),
            Event::Raw(ident, data) => {
                let mut r = "binary:".to_owned();
                r.append(ident.as_str());
                r.append(":");
                let count = decimal_string(data.len());
                r.append(count.as_str());
                r
            },
        }
    }
}

/// The parts one after another.
pub open spec fn joined<A>(parts: Seq<Seq<A>>) -> Seq<A>
    decreases parts.len(),
{
    if parts.len() == 0 {
        Seq::empty()
    } else {
        joined(parts.drop_last()) + parts.last()
    }
}

/// The text that `String::from_utf8_lossy` reads from `bytes`.
pub uninterp spec fn utf8_lossy(bytes: Seq<u8>) -> Seq<char>;

/// `String::from_utf8_lossy`: the bytes read as UTF-8, with a replacement
/// character for what is no valid UTF-8. The text depends on the bytes alone.
#[verifier::external_body]
fn decode_lossy(bytes: &Vec<u8>) -> (text: String)
    ensures
        text@ == utf8_lossy(bytes@),
{
    String::from_utf8_lossy(bytes).into_owned()
}

/// The text event whose text is the pieces one after another.
pub fn text_event(pieces: &Vec<String>) -> (event: Event)
    ensures
        event@ == EventView::Text(joined(pieces.deep_view())),
{
    let mut text = String::new();
    let mut i: usize = 0;
    while i < pieces.len()
        invariant
            i <= pieces.len(),
            text@ == joined(pieces.deep_view().take(i as int)),
        decreases pieces.len() - i,
    {
        text.append(pieces[i].as_str());
        proof {
            let upto = pieces.deep_view().take(i + 1);
            assert(upto.drop_last() =~= pieces.deep_view().take(i as int));
            assert(upto.last() == pieces[i as int]@);
        }
        i += 1;
    }
    assert(pieces.deep_view().take(i as int) =~= pieces.deep_view());
    Event::Text(text)
}

/// The text event of a body that arrived in chunks: each chunk is read as
/// UTF-8 by itself, with a replacement character for what is no valid
/// UTF-8, and the texts are put one after another.
pub fn buf_to_string_event(chunks: &Vec<Vec<u8>>) -> (event: Event)
    ensures
        event@ == EventView::Text(
            joined(chunks.deep_view().map_values(|chunk: Seq<u8>| utf8_lossy(chunk))),
        ),
{
    let mut pieces: Vec<String> = Vec::new();
    let mut i: usize = 0;
    while i < chunks.len()
        invariant
            i <= chunks.len(),
            pieces.deep_view() == chunks.deep_view().take(i as int).map_values(
                |chunk: Seq<u8>| utf8_lossy(chunk),
            ),
        decreases chunks.len() - i,
    {
        let piece = decode_lossy(&chunks[i]);
        let ghost before = pieces.deep_view();
        pieces.push(piece);
        proof {
            assert(pieces.deep_view() =~= before.push(piece@));
            assert(chunks.deep_view()[i as int] == chunks[i as int]@);
            assert(chunks.deep_view().take(i + 1).map_values(|chunk: Seq<u8>| utf8_lossy(chunk))
                =~= before.push(utf8_lossy(chunks[i as int]@)));
        }
        i += 1;
    }
    assert(chunks.deep_view().take(i as int) =~= chunks.deep_view());
    text_event(&pieces)
}

/// The binary event of an upload that arrived in chunks: it has the name of
/// the upload and the bytes of the chunks one after another.
pub fn raw_event(name: String, chunks: &Vec<Vec<u8>>) -> (event: Event)
    ensures
        event@ == EventView::Raw(name@, joined(chunks.deep_view())),
{
    let mut data: Vec<u8> = Vec::new();
    let mut i: usize = 0;
    while i < chunks.len()
        invariant
            i <= chunks.len(),
            data@ == joined(chunks.deep_view().take(i as int)),
        decreases chunks.len() - i,
    {
        let chunk = &chunks[i];
        let ghost before = data@;
        let mut k: usize = 0;
        while k < chunk.len()
            invariant
                k <= chunk.len(),
                data@ == before + chunk@.take(k as int),
            decreases chunk.len() - k,
        {
            data.push(chunk[k]);
            assert(chunk@.take(k + 1) =~= chunk@.take(k as int).push(chunk@[k as int]));
            k += 1;
        }
        proof {
            assert(chunk@.take(k as int) =~= chunk@);
            let upto = chunks.deep_view().take(i + 1);
            assert(upto.drop_last() =~= chunks.deep_view().take(i as int));
            assert(upto.last() =~= chunk@);
        }
        i += 1;
    }
    assert(chunks.deep_view().take(i as int) =~= chunks.deep_view());
    Event::Raw(name, data)
}

/// The name of the file that keeps the binary event `ident`: `file_` and what
/// follows the last `/` of the identifier, or `file_binary` where nothing
/// follows it.
pub open spec fn file_name_of(ident: Seq<char>) -> Seq<char> {
    let trail = after_last(ident, '/');
    if trail.len() == 0 {
        "file_binary"@
    } else {
        "file_"@ + trail
    }
}

/// A file name for the binary event `ident` that is safe to use in a log
/// directory.
pub fn safe_filename(ident: &str) -> (name: String)
    ensures
        name@ == file_name_of(ident@),
{
    let chars = chars_of(ident);
    let len = chars.len();
    let tail = count_trailing(&chars, 0, len, CharClass::Except('/'));
    assert(chars@.subrange(0, len as int) =~= ident@);
    if tail == 0 {
        "file_binary".to_owned()
    } else {
        let trail = substring(ident, len - tail, len);
        assert(trail@ =~= after_last(ident@, '/'));
        let mut name = "file_".to_owned();
        name.append(trail.as_str());
        name
    }
}

/// A file name never leads out of the log directory: it is not empty and
/// holds no `/`, whatever the identifier.
pub proof fn lemma_file_name_stays_in_directory(ident: Seq<char>)
    ensures
        file_name_of(ident).len() > 0,
        !file_name_of(ident).contains('/'),
{
    reveal_strlit("file_binary");
    reveal_strlit("file_");
    let trail = after_last(ident, '/');
    let name = file_name_of(ident);
    lemma_trailing_run(ident, CharClass::Except('/'));
    if name.contains('/') {
        let i = choose|i: int| 0 <= i < name.len() && name[i] == '/';
        if trail.len() != 0 {
            assert(i >= 5);
            assert(name[i] == trail[i - 5]);
            assert(trail[i - 5] == ident[ident.len() - trail.len() + (i - 5)]);
        }
    }
}

} // verus!
