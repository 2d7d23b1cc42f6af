//! The texts and media that a content server holds.

use crate::json::{
    as_array, as_str, as_u64, element, json_of, json_parsed, jsons_of, member, parse, Json,
};
use crate::message::{copy_bytes, named_views, FileContent, FileView};
use serde_json::Value;
use std::collections::HashMap;
use vstd::prelude::*;
use vstd::std_specs::iter::IteratorSpec;
use vstd::string::StrSliceExecFns;

verus! {

broadcast use vstd::std_specs::hash::group_hash_axioms;

/// What a text document says, as far as it says it.
#[derive(Debug, PartialEq, Eq)]
pub struct Document {
    pub title: Option<String>,
    pub text: Option<String>,
    /// The number and the name of each medium.
    pub media_ids: Option<Vec<(Option<u64>, Option<String>)>>,
}

/// The model of a [`Document`].
#[verifier::ext_equal]
pub struct DocumentView {
    pub title: Option<Seq<char>>,
    pub text: Option<Seq<char>>,
    pub media_ids: Option<Seq<(Option<u64>, Option<Seq<char>>)>>,
}

/// The characters of a string that may not be there.
pub open spec fn string_view(text: Option<String>) -> Option<Seq<char>> {
    match text {
        Some(text) => Some(text@),
        None => None,
    }
}

/// The models of some entries on media.
pub open spec fn media_views(entries: Seq<(Option<u64>, Option<String>)>) -> Seq<
    (Option<u64>, Option<Seq<char>>),
> {
    entries.map_values(|entry: (Option<u64>, Option<String>)| (entry.0, string_view(entry.1)))
}

impl View for Document {
    type V = DocumentView;

    open spec fn view(&self) -> DocumentView {
        DocumentView {
            title: string_view(self.title),
            text: string_view(self.text),
            media_ids: match self.media_ids {
                Some(entries) => Some(media_views(entries@)),
                None => None,
            },
        }
    }
}

/// The model of a document that may not be there.
pub open spec fn document_view(document: Option<Document>) -> Option<DocumentView> {
    match document {
        Some(document) => Some(document@),
        None => None,
    }
}

/// What one element of the list of media says.
pub open spec fn medium_in(json: Json) -> (Option<u64>, Option<Seq<char>>) {
    (json.element(0).as_integer(), json.element(1).as_text())
}

/// What a JSON value says as a text document.
pub open spec fn document_in(json: Json) -> DocumentView {
    DocumentView {
        title: json.member("title"@).as_text(),
        text: json.member("text"@).as_text(),
        media_ids: match json.member("media_ids"@).as_elements() {
            Some(elements) => Some(elements.map_values(|element: Json| medium_in(element))),
            None => None,
        },
    }
}

/// The entries on media that give both a number and a name.
pub open spec fn named_media(entries: Seq<(Option<u64>, Option<Seq<char>>)>) -> Seq<
    (u64, Seq<char>),
>
    decreases entries.len(),
{
    if entries.len() == 0 {
        seq![]
    } else {
        let before = named_media(entries.drop_last());
        match entries.last() {
            (Some(id), Some(name)) => before.push((id, name)),
            _ => before,
        }
    }
}

/// The file that a document stands for: what it leaves out is filled in, and entries on media
/// that lack a number or a name are left out.
pub open spec fn file_in(document: DocumentView) -> FileView {
    FileView {
        title: match document.title {
            Some(title) => title,
            None => "Untitled"@,
        },
        text: match document.text {
            Some(text) => text,
            None => ""@,
        },
        media_ids: match document.media_ids {
            Some(entries) => named_media(entries),
            None => seq![],
        },
    }
}

fn text_of(value: &Value) -> (res: Option<String>)
    ensures
        string_view(res) == json_of(*value).as_text(),
{
    match as_str(value) {
        Some(text) => Some(text.to_string()),
        None => None,
    }
}

/// Reads a text as a JSON document; nothing where it is none.
pub fn read_document(content: &str) -> (res: Option<Document>)
    ensures
        document_view(res) == match json_parsed(content@) {
            Some(json) => Some(document_in(json)),
            None => None,
        },
{
    let value: Value = match parse(content) {
        Ok(value) => value,
        Err(_) => {
            return None;
        },
    };
    let ghost json = json_of(value);
    let media_ids = match as_array(member(&value, "media_ids")) {
        Some(elements) => {
            let mut entries: Vec<(Option<u64>, Option<String>)> = Vec::new();
            let mut i: usize = 0;
            while i < elements.len()
                invariant
                    i <= elements@.len(),
                    entries@.len() == i,
                    forall|j: int|
                        0 <= j < i ==> (
                            (#[trigger] entries@[j]).0,
                            string_view(entries@[j].1),
                        ) == medium_in(jsons_of(elements@)[j]),
                decreases elements.len() - i,
            {
                let medium = &elements[i];
                entries.push((as_u64(element(medium, 0)), text_of(element(medium, 1))));
                i = i + 1;
            }
            assert(media_views(entries@) =~= jsons_of(elements@).map_values(
                |element: Json| medium_in(element),
            ));
            Some(entries)
        },
        None => None,
    };
    Some(
        Document {
            title: text_of(member(&value, "title")),
            text: text_of(member(&value, "text")),
            media_ids,
        },
    )
}

/// Makes a file of a document.
pub fn file_from_document(document: Document) -> (res: FileContent)
    ensures
        res@ == file_in(document@),
{
    let title = match document.title {
        Some(title) => title,
        None => "Untitled".to_string(),
    };
    let text = match document.text {
        Some(text) => text,
        None => "".to_string(),
    };
    let mut media_ids: Vec<(u64, String)> = Vec::new();
    match document.media_ids {
        Some(entries) => {
            let mut i: usize = 0;
            while i < entries.len()
                invariant
                    i <= entries@.len(),
                    named_views(media_ids@) == named_media(media_views(entries@).take(i as int)),
                decreases entries.len() - i,
            {
                let ghost before = media_ids@;
                match (&entries[i].0, &entries[i].1) {
                    (Some(id), Some(name)) => {
                        media_ids.push((*id, name.clone()));
                        assert(named_views(media_ids@) =~= named_views(before).push((*id, name@)));
                    },
                    _ => {},
                }
                assert(media_views(entries@).take(i + 1).drop_last() =~= media_views(entries@).take(
                    i as int,
                ));
                i = i + 1;
            }
            assert(media_views(entries@).take(entries@.len() as int) =~= media_views(entries@));
        },
        None => {
            assert(named_views(media_ids@) =~= seq![]);
        },
    }
    FileContent { title, text, media_ids }
}

/// The file in a text, if the text is a JSON document.
pub open spec fn file_in_text(content: Seq<char>) -> Option<FileView> {
    match json_parsed(content) {
        Some(json) => Some(file_in(document_in(json))),
        None => None,
    }
}

/// An entry of the folder of texts.
#[derive(Debug, PartialEq, Eq)]
pub struct TextEntry {
    /// Whether the entry is a file.
    pub is_file: bool,
    /// The extension of its name, if it has one.
    pub extension: Option<String>,
    /// Its content, if it could be read.
    pub content: Option<String>,
}

/// Only files with the extension `json` are texts.
pub open spec fn names_text(is_file: bool, extension: Option<String>) -> bool {
    is_file && string_view(extension) == Some("json"@)
}

/// The file in an entry of the folder of texts, if there is one.
pub open spec fn entry_file(entry: TextEntry) -> Option<FileView> {
    if names_text(entry.is_file, entry.extension) {
        match entry.content {
            Some(content) => file_in_text(content@),
            None => None,
        }
    } else {
        None
    }
}

/// The files in the entries of the folder of texts, in their order.
pub open spec fn folder_files(entries: Seq<TextEntry>) -> Seq<FileView>
    decreases entries.len(),
{
    if entries.len() == 0 {
        seq![]
    } else {
        let before = folder_files(entries.drop_last());
        match entry_file(entries.last()) {
            Some(file) => before.push(file),
            None => before,
        }
    }
}

/// Files, numbered from zero.
pub open spec fn numbered_files(files: Seq<FileView>) -> Map<u64, FileView> {
    Map::new(|id: u64| id < files.len(), |id: u64| files[id as int])
}

/// The texts that a content server holds, by number.
#[derive(Debug, PartialEq)]
pub struct TextServer {
    pub stored_texts: HashMap<u64, FileContent>,
}

impl View for TextServer {
    type V = Map<u64, FileView>;

    open spec fn view(&self) -> Map<u64, FileView> {
        self.stored_texts@.map_values(|file: FileContent| file@)
    }
}

impl Clone for TextServer {
    fn clone(&self) -> (res: Self)
        ensures
            res@ == self@,
    {
        TextServer { stored_texts: self.stored_texts.clone() }
    }
}

/// The list names every text once, by its number and its title.
pub open spec fn lists_titles(list: Seq<(u64, Seq<char>)>, texts: Map<u64, FileView>) -> bool {
    &&& list.no_duplicates()
    &&& forall|id: u64, title: Seq<char>| #[trigger]
        list.contains((id, title)) <==> texts.contains_key(id) && texts[id].title == title
}

impl TextServer {
    pub fn new() -> (res: TextServer)
        ensures
            res@ == Map::<u64, FileView>::empty(),
    {
        let res = TextServer { stored_texts: HashMap::new() };
        assert(res@ =~= Map::empty());
        res
    }

    /// Whether an entry of the folder of texts is to be read.
    pub fn reads(is_file: bool, extension: &Option<String>) -> (res: bool)
        ensures
            res == names_text(is_file, *extension),
    {
        match extension {
            Some(extension) => is_file && *extension == "json".to_string(),
            None => false,
        }
    }

    /// Stores a text under the next number, if it is a JSON document.
    pub fn add_text(&mut self, content: &str)
        ensures
            final(self)@ == match file_in_text(content@) {
                Some(file) => old(self)@.insert(old(self)@.len() as u64, file),
                None => old(self)@,
            },
    {
        assert(self@.dom() =~= self.stored_texts@.dom());
        match read_document(content) {
            Some(document) => {
                let id = self.stored_texts.len() as u64;
                self.stored_texts.insert(id, file_from_document(document));
            },
            None => {},
        }
        assert(self@ =~= match file_in_text(content@) {
            Some(file) => old(self)@.insert(old(self)@.len() as u64, file),
            None => old(self)@,
        });
    }

    /// Stores the texts of a folder, numbered from zero in the order of the entries.
    pub fn new_from_folder(entries: &Vec<TextEntry>) -> (res: TextServer)
        ensures
            res@ == numbered_files(folder_files(entries@)),
    {
        let mut res = TextServer::new();
        assert(res@ =~= numbered_files(folder_files(entries@.take(0))));
        let mut i: usize = 0;
        while i < entries.len()
            invariant
                i <= entries@.len(),
                res@ == numbered_files(folder_files(entries@.take(i as int))),
                folder_files(entries@.take(i as int)).len() <= i,
            decreases entries.len() - i,
        {
            let entry = &entries[i];
            proof {
                let files = folder_files(entries@.take(i as int));
                assert(entries@.take(i + 1).drop_last() =~= entries@.take(i as int));
                lemma_numbered_files(files);
                if entry_file(*entry) is Some {
                    let file = entry_file(*entry)->0;
                    assert(numbered_files(files.push(file)) =~= numbered_files(files).insert(
                        files.len() as u64,
                        file,
                    ));
                }
            }
            if TextServer::reads(entry.is_file, &entry.extension) {
                match &entry.content {
                    Some(content) => res.add_text(content.as_str()),
                    None => {},
                }
            }
            i = i + 1;
        }
        assert(entries@.take(entries@.len() as int) =~= entries@);
        res
    }

    /// The numbers and titles of the stored texts, in the order in which the map is walked.
    pub fn list_files(&self) -> (res: Vec<(u64, String)>)
        ensures
            lists_titles(named_views(res@), self@),
    {
        let mut res: Vec<(u64, String)> = Vec::new();
        let ghost walk = vstd::std_specs::hash::spec_hash_map_iter(&self.stored_texts).remaining();
        for pair in iter: self.stored_texts.iter()
            invariant
                iter.seq() == walk,
                res@.len() == iter.index(),
                forall|i: int|
                    0 <= i < res@.len() ==> (#[trigger] res@[i]).0 == *walk[i].0 && res@[i].1@
                        == walk[i].1.title@,
        {
            let (id, file) = pair;
            res.push((*id, file.title.clone()));
        }
        proof {
            let list = named_views(res@);
            assert forall|i: int| 0 <= i < walk.len() implies self@.contains_key(
                *(#[trigger] walk[i]).0,
            ) && self@[*walk[i].0] == walk[i].1@ by {
                assert(self.stored_texts@.contains_key(*walk[i].0));
            }
            assert forall|id: u64, title: Seq<char>| #[trigger]
                list.contains((id, title)) <==> self@.contains_key(id) && self@[id].title
                == title by {
                if list.contains((id, title)) {
                    let i = list.index_of((id, title));
                    assert(res@[i].0 == *walk[i].0);
                }
                if self@.contains_key(id) && self@[id].title == title {
                    assert(self.stored_texts@.contains_key(id));
                    let i = walk.index_of((&id, &self.stored_texts@[id]));
                    assert(res@[i].0 == *walk[i].0);
                    assert(list[i] == (id, title));
                }
            }
            assert forall|i: int, j: int|
                0 <= i < list.len() && 0 <= j < list.len() && i != j implies list[i] != list[j] by {
                assert(res@[i].0 == *walk[i].0);
                assert(res@[j].0 == *walk[j].0);
                assert(walk[i] != walk[j]);
                assert(self.stored_texts@[*walk[i].0] == *walk[i].1);
                assert(self.stored_texts@[*walk[j].0] == *walk[j].1);
            }
        }
        res
    }

    /// The text under a number, if there is one.
    pub fn get_file_text(&self, file_id: u64) -> (res: Option<FileContent>)
        ensures
            file_view(res) == (if self@.contains_key(file_id) {
                Some(self@[file_id])
            } else {
                None
            }),
    {
        match self.stored_texts.get(&file_id) {
            Some(file) => Some(file.clone()),
            None => None,
        }
    }
}

/// The model of a file that may not be there.
pub open spec fn file_view(file: Option<FileContent>) -> Option<FileView> {
    match file {
        Some(file) => Some(file@),
        None => None,
    }
}

proof fn lemma_numbered_files(files: Seq<FileView>)
    requires
        files.len() <= u64::MAX,
    ensures
        numbered_files(files).dom().finite(),
        numbered_files(files).len() == files.len(),
    decreases files.len(),
{
    if files.len() == 0 {
        assert(numbered_files(files) =~= Map::empty());
    } else {
        let fewer = files.drop_last();
        lemma_numbered_files(fewer);
        assert(numbered_files(files) =~= numbered_files(fewer).insert(
            fewer.len() as u64,
            files.last(),
        ));
    }
}

/// A text that is added gets the next number, under which it is found, and the texts before it
/// keep theirs.
pub proof fn law_added_text_is_numbered_next(files: Seq<FileView>, file: FileView)
    requires
        files.len() < u64::MAX,
    ensures
        numbered_files(files).insert(numbered_files(files).len() as u64, file) == numbered_files(
            files.push(file),
        ),
        numbered_files(files.push(file)).contains_key(files.len() as u64),
        numbered_files(files.push(file))[files.len() as u64] == file,
        forall|id: u64| #[trigger]
            numbered_files(files).contains_key(id) ==> numbered_files(
                files.push(file),
            ).contains_key(id) && numbered_files(files.push(file))[id] == numbered_files(files)[id],
{
    lemma_numbered_files(files);
    assert(numbered_files(files).insert(files.len() as u64, file) =~= numbered_files(
        files.push(file),
    ));
}

/// The list of texts is as long as there are texts, and every text on it is there under its
/// number and has its title.
pub proof fn law_listed_texts_are_stored(list: Seq<(u64, Seq<char>)>, texts: Map<u64, FileView>)
    requires
        lists_titles(list, texts),
    ensures
        forall|i: int|
            0 <= i < list.len() ==> texts.contains_key((#[trigger] list[i]).0)
                && texts[list[i].0].title == list[i].1,
        list.len() == texts.len(),
{
    assert forall|i: int| 0 <= i < list.len() implies texts.contains_key((#[trigger] list[i]).0)
        && texts[list[i].0].title == list[i].1 by {
        assert(list.contains((list[i].0, list[i].1)));
    }
    let ids = list.map_values(|pair: (u64, Seq<char>)| pair.0);
    assert forall|i: int, j: int|
        0 <= i < ids.len() && 0 <= j < ids.len() && i != j implies ids[i] != ids[j] by {
        assert(list[i] != list[j]);
    }
    ids.unique_seq_to_set();
    assert(ids.to_set() =~= texts.dom()) by {
        assert forall|id: u64| #[trigger] ids.to_set().contains(id) <==> texts.dom().contains(
            id,
        ) by {
            if texts.dom().contains(id) {
                assert(list.contains((id, texts[id].title)));
                let i = list.index_of((id, texts[id].title));
                assert(ids[i] == id);
            }
            if ids.contains(id) {
                let i = ids.index_of(id);
                assert(list[i].0 == id);
            }
        }
    }
}

/// An entry of the folder of media.
#[derive(Debug, PartialEq, Eq)]
pub struct MediaEntry {
    /// Whether the entry is a file.
    pub is_file: bool,
    /// Its name, if it is valid text.
    pub file_name: Option<String>,
    /// Its content, if it could be read.
    pub content: Option<Vec<u8>>,
}

/// The value of a decimal digit.
pub open spec fn digit_value(c: char) -> Option<u64> {
    if '0' <= c && c <= '9' {
        Some((c as int - '0' as int) as u64)
    } else {
        None
    }
}

/// The number of a medium is the digit with which the name of its file begins.
pub open spec fn medium_number(is_file: bool, file_name: Option<String>) -> Option<u64> {
    match file_name {
        Some(name) => if is_file && name@.len() > 0 {
            digit_value(name@[0])
        } else {
            None
        },
        None => None,
    }
}

/// The media of a folder: the last file whose name begins with a digit is the one that counts.
pub open spec fn folder_media(entries: Seq<MediaEntry>) -> Map<u64, Seq<u8>>
    decreases entries.len(),
{
    if entries.len() == 0 {
        Map::empty()
    } else {
        let before = folder_media(entries.drop_last());
        let entry = entries.last();
        match (medium_number(entry.is_file, entry.file_name), entry.content) {
            (Some(id), Some(content)) => before.insert(id, content@),
            _ => before,
        }
    }
}

/// The media of a folder are numbered by single digits.
pub proof fn law_media_numbers_are_digits(entries: Seq<MediaEntry>, id: u64)
    requires
        folder_media(entries).contains_key(id),
    ensures
        id < 10,
    decreases entries.len(),
{
    if entries.len() > 0 && folder_media(entries.drop_last()).contains_key(id) {
        law_media_numbers_are_digits(entries.drop_last(), id);
    }
}

/// The media that a content server holds, by number.
#[derive(Debug, PartialEq)]
pub struct MediaServer {
    pub stored_media: HashMap<u64, Vec<u8>>,
}

impl View for MediaServer {
    type V = Map<u64, Seq<u8>>;

    open spec fn view(&self) -> Map<u64, Seq<u8>> {
        self.stored_media@.map_values(|bytes: Vec<u8>| bytes@)
    }
}

impl Clone for MediaServer {
    fn clone(&self) -> (res: Self)
        ensures
            res@ == self@,
    {
        MediaServer { stored_media: self.stored_media.clone() }
    }
}

/// The bytes of a medium that may not be there.
pub open spec fn bytes_view(bytes: Option<Vec<u8>>) -> Option<Seq<u8>> {
    match bytes {
        Some(bytes) => Some(bytes@),
        None => None,
    }
}

impl MediaServer {
    pub fn new() -> (res: MediaServer)
        ensures
            res@ == Map::<u64, Seq<u8>>::empty(),
    {
        let res = MediaServer { stored_media: HashMap::new() };
        assert(res@ =~= Map::empty());
        res
    }

    /// The number of the medium in an entry of the folder of media, if it is to be read.
    pub fn number(is_file: bool, file_name: &Option<String>) -> (res: Option<u64>)
        ensures
            res == medium_number(is_file, *file_name),
    {
        match file_name {
            Some(name) => {
                if is_file && !name.as_str().is_empty() {
                    let c = name.as_str().get_char(0);
                    if '0' <= c && c <= '9' {
                        Some((c as u32 - 48) as u64)
                    } else {
                        None
                    }
                } else {
                    None
                }
            },
            None => None,
        }
    }

    /// Stores the media of a folder.
    pub fn new_from_folder(entries: &Vec<MediaEntry>) -> (res: MediaServer)
        ensures
            res@ == folder_media(entries@),
    {
        let mut res = MediaServer::new();
        let mut i: usize = 0;
        while i < entries.len()
            invariant
                i <= entries@.len(),
                res@ == folder_media(entries@.take(i as int)),
            decreases entries.len() - i,
        {
            let entry = &entries[i];
            let ghost before = res@;
            proof {
                assert(entries@.take(i + 1).drop_last() =~= entries@.take(i as int));
            }
            match MediaServer::number(entry.is_file, &entry.file_name) {
                Some(id) => match &entry.content {
                    Some(content) => {
                        res.stored_media.insert(id, copy_bytes(content));
                        assert(res@ =~= before.insert(id, content@));
                    },
                    None => {},
                },
                None => {},
            }
            i = i + 1;
        }
        assert(entries@.take(entries@.len() as int) =~= entries@);
        res
    }

    /// The medium under a number, if there is one.
    pub fn get_media(&self, media_id: u64) -> (res: Option<Vec<u8>>)
        ensures
            bytes_view(res) == (if self@.contains_key(media_id) {
                Some(self@[media_id])
            } else {
                None
            }),
    {
        match self.stored_media.get(&media_id) {
            Some(bytes) => Some(copy_bytes(bytes)),
            None => None,
        }
    }
}

} // verus!
