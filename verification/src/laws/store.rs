//! How the texts and media of folders are found, numbered and given out.

use crate::json::{json_parsed, Json};
use crate::message::{named_views, FileContent, FileView};
use crate::store::{
    document_in, document_view, entry_file, file_from_document, file_in, folder_files,
    folder_media, law_added_text_is_numbered_next, law_listed_texts_are_stored, medium_in,
    medium_number, named_media, numbered_files, read_document, string_view, Document, DocumentView,
    MediaEntry, MediaServer, TextEntry, TextServer,
};
use vstd::prelude::*;

verus! {

/// The model of the texts holds every stored text under its number.
pub proof fn law_text_model(texts: TextServer, id: u64)
    ensures
        texts@.contains_key(id) <==> texts.stored_texts@.contains_key(id),
        texts@.contains_key(id) ==> texts@[id] == texts.stored_texts@[id]@,
{
}

/// The model of the media holds every stored medium under its number.
pub proof fn law_media_model(media: MediaServer, id: u64)
    ensures
        media@.contains_key(id) <==> media.stored_media@.contains_key(id),
        media@.contains_key(id) ==> media@[id] == media.stored_media@[id]@,
{
}

/// Only files with the extension `json` are read as texts.
pub proof fn law_only_json_files_are_read(is_file: bool, extension: &Option<String>, res: bool)
    requires
        call_ensures(TextServer::reads, (is_file, extension), res),
    ensures
        res <==> is_file && *extension is Some && (*extension)->0@ == "json"@,
{
}

/// A text that is no JSON document is not read; of one that is, the members `title` and `text`
/// are taken if they are strings.
pub proof fn law_document_is_read(content: &str, res: Option<Document>)
    requires
        call_ensures(read_document, (content,), res),
    ensures
        res is None <==> json_parsed(content@) is None,
        res matches Some(document) ==> {
            let json = json_parsed(content@)->0;
            let member = |key: Seq<char>|
                if json is Object && json->Object_0.contains_key(key) {
                    json->Object_0[key]
                } else {
                    Json::Null
                };
            &&& document.title is Some <==> member("title"@) is Text
            &&& document.title is Some ==> document.title->0@ == member("title"@)->Text_0
            &&& document.text is Some <==> member("text"@) is Text
            &&& document.text is Some ==> document.text->0@ == member("text"@)->Text_0
            &&& document.media_ids is Some <==> member("media_ids"@) is Array
            &&& document.media_ids is Some ==> document.media_ids->0@.len() == member(
                "media_ids"@,
            )->Array_0.len()
        },
{
    if res is Some {
        lemma_document(content, res->0);
    }
}

proof fn lemma_document(content: &str, document: Document)
    requires
        call_ensures(read_document, (content,), Some(document)),
    ensures
        json_parsed(content@) is Some,
        document@ == document_in(json_parsed(content@)->0),
        document.media_ids is Some ==> document@.media_ids is Some
            && document@.media_ids->0.len() == document.media_ids->0@.len(),
        document.media_ids is None ==> document@.media_ids is None,
{
    assert(document_view(Some(document)) == Some(document@));
}

/// An entry on a medium has the number that is its first element, if that is one, and the name
/// that is its second, if that is one.
pub proof fn law_medium_entry_is_read(content: &str, res: Option<Document>, i: int)
    requires
        call_ensures(read_document, (content,), res),
        res is Some,
        res->0.media_ids is Some,
        0 <= i < res->0.media_ids->0@.len(),
    ensures
        ({
            let entry = json_parsed(content@)->0->Object_0["media_ids"@]->Array_0[i];
            let element = |k: int|
                if entry is Array && k < entry->Array_0.len() {
                    entry->Array_0[k]
                } else {
                    Json::Null
                };
            let (id, name) = res->0.media_ids->0@[i];
            &&& id == (if element(0) is Number {
                element(0)->Number_0
            } else {
                None
            })
            &&& name is Some <==> element(1) is Text
            &&& name is Some ==> name->0@ == element(1)->Text_0
        }),
{
    lemma_document(content, res->0);
    let views = res->0@.media_ids->0;
    let elements = json_parsed(content@)->0.member("media_ids"@)->Array_0;
    assert(views[i] == medium_in(elements[i]));
    assert(views[i] == (res->0.media_ids->0@[i].0, string_view(res->0.media_ids->0@[i].1)));
}

/// A document without a title is called `Untitled`, and one without a text has an empty one.
pub proof fn law_missing_parts_are_filled_in(document: Document, file: FileContent)
    requires
        call_ensures(file_from_document, (document,), file),
    ensures
        file.title@ == (if document.title is Some {
            document.title->0@
        } else {
            "Untitled"@
        }),
        file.text@ == (if document.text is Some {
            document.text->0@
        } else {
            ""@
        }),
        document.media_ids is None ==> file.media_ids@.len() == 0,
{
    assert(file@.media_ids.len() == file.media_ids@.len());
}

/// The media of a file are those entries of its document that give both a number and a name, in
/// their order.
pub proof fn law_media_with_number_and_name_are_kept(
    entries: Seq<(Option<u64>, Option<Seq<char>>)>,
    next: (Option<u64>, Option<Seq<char>>),
    document: DocumentView,
)
    ensures
        named_media(seq![]) == Seq::<(u64, Seq<char>)>::empty(),
        named_media(entries.push(next)) == (if next.0 is Some && next.1 is Some {
            named_media(entries).push((next.0->0, next.1->0))
        } else {
            named_media(entries)
        }),
        document.media_ids is Some ==> file_in(document).media_ids == named_media(
            document.media_ids->0,
        ),
        document.media_ids is None ==> file_in(document).media_ids == Seq::<
            (u64, Seq<char>),
        >::empty(),
{
    assert(entries.push(next).drop_last() =~= entries);
    assert(entries.push(next).last() == next);
}

/// An empty folder has no texts. One more entry in a folder leaves the texts of the others as they
/// are, and adds a text under the next number exactly if it is a file with the extension `json`
/// whose content could be read and is a JSON document.
pub proof fn law_one_more_text(
    entries: &Vec<TextEntry>,
    more: &Vec<TextEntry>,
    texts: TextServer,
    more_texts: TextServer,
)
    requires
        call_ensures(TextServer::new_from_folder, (entries,), texts),
        call_ensures(TextServer::new_from_folder, (more,), more_texts),
        more@.len() == entries@.len() + 1,
        more@.drop_last() == entries@,
    ensures
        entries@.len() == 0 ==> texts@ == Map::<u64, FileView>::empty(),
        ({
            let entry = more@.last();
            if entry.is_file && entry.extension is Some && entry.extension->0@ == "json"@
                && entry.content is Some && json_parsed(entry.content->0@) is Some {
                &&& more_texts@ == texts@.insert(
                    texts@.len() as u64,
                    file_in(document_in(json_parsed(entry.content->0@)->0)),
                )
                &&& !texts@.contains_key(texts@.len() as u64)
            } else {
                more_texts@ == texts@
            }
        }),
{
    let files = folder_files(entries@);
    lemma_no_more_files_than_entries(entries@);
    assert(more.len() == more@.len());
    assert(files.len() < u64::MAX);
    if entries@.len() == 0 {
        assert(numbered_files(files) =~= Map::empty());
    }
    if entry_file(more@.last()) is Some {
        law_added_text_is_numbered_next(files, entry_file(more@.last())->0);
        assert(numbered_files(files).len() == files.len()) by {
            lemma_as_many_numbers_as_files(files);
        }
    }
}

proof fn lemma_no_more_files_than_entries(entries: Seq<TextEntry>)
    ensures
        folder_files(entries).len() <= entries.len(),
    decreases entries.len(),
{
    if entries.len() > 0 {
        lemma_no_more_files_than_entries(entries.drop_last());
    }
}

proof fn lemma_as_many_numbers_as_files(files: Seq<FileView>)
    requires
        files.len() < u64::MAX,
    ensures
        numbered_files(files).len() == files.len(),
    decreases files.len(),
{
    if files.len() == 0 {
        assert(numbered_files(files) =~= Map::empty());
    } else {
        let fewer = files.drop_last();
        lemma_as_many_numbers_as_files(fewer);
        law_added_text_is_numbered_next(fewer, files.last());
        assert(fewer.push(files.last()) =~= files);
        let dom = numbered_files(fewer).dom();
        assert(!dom.contains(fewer.len() as u64));
        lemma_numbers_are_finite(fewer);
        assert(numbered_files(files).dom() =~= dom.insert(fewer.len() as u64));
    }
}

proof fn lemma_numbers_are_finite(files: Seq<FileView>)
    requires
        files.len() < u64::MAX,
    ensures
        numbered_files(files).dom().finite(),
    decreases files.len(),
{
    if files.len() == 0 {
        assert(numbered_files(files).dom() =~= Set::empty());
    } else {
        let fewer = files.drop_last();
        lemma_numbers_are_finite(fewer);
        assert(numbered_files(files).dom() =~= numbered_files(fewer).dom().insert(
            fewer.len() as u64,
        ));
    }
}

/// A text that is added is stored under the number of texts so far if it is a JSON document, and
/// changes nothing otherwise.
pub proof fn law_text_is_added(texts: &mut TextServer, content: &str)
    requires
        call_ensures(TextServer::add_text, (texts, content), ()),
    ensures
        final(texts)@ == (if json_parsed(content@) is Some {
            old(texts)@.insert(
                old(texts)@.len() as u64,
                file_in(document_in(json_parsed(content@)->0)),
            )
        } else {
            old(texts)@
        }),
{
}

/// Every stored text is on the list, by its number and with its title, once; nothing else is.
pub proof fn law_every_text_is_listed(
    texts: &TextServer,
    list: Vec<(u64, String)>,
    id: u64,
    i: int,
)
    requires
        call_ensures(TextServer::list_files, (texts,), list),
    ensures
        list@.len() == texts@.len(),
        texts@.contains_key(id) ==> exists|k: int|
            0 <= k < list@.len() && (#[trigger] list@[k]).0 == id && list@[k].1@
                == texts@[id].title,
        0 <= i < list@.len() ==> texts@.contains_key(list@[i].0) && texts@[list@[i].0].title
            == list@[i].1@,
{
    let views = named_views(list@);
    law_listed_texts_are_stored(views, texts@);
    if texts@.contains_key(id) {
        assert(views.contains((id, texts@[id].title)));
        let k = views.index_of((id, texts@[id].title));
        assert(list@[k].0 == id);
    }
    if 0 <= i < list@.len() {
        assert(views[i] == (list@[i].0, list@[i].1@));
    }
}

/// A stored text is given out whole under its number, and nothing under any other.
pub proof fn law_stored_text_is_given_out(texts: &TextServer, id: u64, res: Option<FileContent>)
    requires
        call_ensures(TextServer::get_file_text, (texts, id), res),
    ensures
        res is Some <==> texts@.contains_key(id),
        res is Some ==> res->0@ == texts@[id],
{
}

/// The number of a medium is the digit with which the name of its file begins.
pub proof fn law_medium_is_numbered_by_its_digit(
    is_file: bool,
    name: &Option<String>,
    res: Option<u64>,
)
    requires
        call_ensures(MediaServer::number, (is_file, name), res),
    ensures
        res is Some <==> is_file && *name is Some && (*name)->0@.len() > 0 && '0' <= (
        *name)->0@[0] <= '9',
        res is Some ==> res->0 == (*name)->0@[0] as int - '0' as int,
{
}

/// An empty folder has no media. One more entry in a folder replaces the medium of its digit
/// exactly if it is a file whose name begins with one and whose content could be read, and leaves
/// all others as they are.
pub proof fn law_one_more_medium(
    entries: &Vec<MediaEntry>,
    more: &Vec<MediaEntry>,
    media: MediaServer,
    more_media: MediaServer,
)
    requires
        call_ensures(MediaServer::new_from_folder, (entries,), media),
        call_ensures(MediaServer::new_from_folder, (more,), more_media),
        more@.len() == entries@.len() + 1,
        more@.drop_last() == entries@,
    ensures
        entries@.len() == 0 ==> media@ == Map::<u64, Seq<u8>>::empty(),
        ({
            let entry = more@.last();
            if entry.is_file && entry.file_name is Some && entry.file_name->0@.len() > 0 && '0'
                <= entry.file_name->0@[0] <= '9' && entry.content is Some {
                more_media@ == media@.insert(
                    (entry.file_name->0@[0] as int - '0' as int) as u64,
                    entry.content->0@,
                )
            } else {
                more_media@ == media@
            }
        }),
{
}

/// A readable file of a folder whose name begins with a digit is the medium of that digit, unless
/// a later one begins with the same digit.
pub proof fn law_last_file_of_a_digit_counts(entries: Seq<MediaEntry>, k: int, id: u64)
    requires
        0 <= k < entries.len(),
        id < 10,
        entries[k].is_file,
        entries[k].file_name is Some,
        entries[k].file_name->0@.len() > 0,
        entries[k].file_name->0@[0] as int == '0' as int + id,
        entries[k].content is Some,
        forall|j: int|
            k < j < entries.len() && (#[trigger] entries[j]).is_file && entries[j].content is Some
                && entries[j].file_name is Some && entries[j].file_name->0@.len() > 0
                ==> entries[j].file_name->0@[0] != entries[k].file_name->0@[0],
    ensures
        folder_media(entries).contains_key(id),
        folder_media(entries)[id] == entries[k].content->0@,
    decreases entries.len(),
{
    let fewer = entries.drop_last();
    let last = entries.len() - 1;
    assert(entries.last() == entries[last]);
    if k < last {
        assert(fewer[k] == entries[k]);
        assert forall|j: int|
            k < j < fewer.len() && (#[trigger] fewer[j]).is_file && fewer[j].content is Some
                && fewer[j].file_name is Some && fewer[j].file_name->0@.len()
                > 0 implies fewer[j].file_name->0@[0] != fewer[k].file_name->0@[0] by {
            assert(fewer[j] == entries[j]);
        }
        law_last_file_of_a_digit_counts(fewer, k, id);
        assert(medium_number(entries[last].is_file, entries[last].file_name) == Some(id)
            && entries[last].content is Some ==> false);
    }
}

/// A stored medium is given out whole under its number, zero not excepted, and nothing under any
/// other.
pub proof fn law_stored_medium_is_given_out(media: &MediaServer, id: u64, res: Option<Vec<u8>>)
    requires
        call_ensures(MediaServer::get_media, (media, id), res),
    ensures
        res is Some <==> media@.contains_key(id),
        res is Some ==> res->0@ == media@[id],
{
}

/// New stores are empty.
pub proof fn law_new_stores_are_empty(texts: TextServer, media: MediaServer, id: u64)
    requires
        call_ensures(TextServer::new, (), texts),
        call_ensures(MediaServer::new, (), media),
    ensures
        !texts@.contains_key(id),
        !media@.contains_key(id),
{
}

} // verus!
