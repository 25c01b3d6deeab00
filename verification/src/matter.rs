//! The metadata block at the head of a content file. gray_matter splits the
//! file and reads the block as YAML; this module takes from the parsed value
//! the four entries that a project is made of.

use vstd::prelude::*;

verus! {

/// The value that gray_matter parses a metadata block into. Nothing of its
/// inside is known here; `pod_node` names what it holds.
#[verifier::external_type_specification]
#[verifier::external_body]
pub struct ExPod(gray_matter::Pod);

/// The error of gray_matter. It is passed on and never looked into.
#[verifier::external_type_specification]
#[verifier::external_body]
pub struct ExMatterError(gray_matter::Error);

/// The key of the entry that holds a project's title.
pub const TITLE_KEY: &'static str = "title";

/// The key of the entry that holds the day of publication.
pub const DATE_KEY: &'static str = "date";

/// The key of the entry that holds the summary.
pub const DESCRIPTION_KEY: &'static str = "description";

/// The key of the entry that holds the list of tags.
pub const TECH_KEY: &'static str = "tech";

/// What a parsed value holds, as a tree of plain values. The variants are
/// those of `gray_matter::Pod`; of a float only its kind is kept.
pub enum Node {
    Null,
    Text(Seq<char>),
    Integer(int),
    Real,
    Flag(bool),
    List(Seq<Node>),
    Table(Map<Seq<char>, Node>),
}

impl Node {
    /// The value under `key` in a table; `Null` where there is none, or no table.
    pub open spec fn entry(self, key: Seq<char>) -> Node {
        match self {
            Node::Table(entries) => if entries.contains_key(key) {
                entries[key]
            } else {
                Node::Null
            },
            _ => Node::Null,
        }
    }

    /// The same value with the entry under `key` taken out of a table.
    pub open spec fn without(self, key: Seq<char>) -> Node {
        match self {
            Node::Table(entries) => Node::Table(entries.remove(key)),
            _ => self,
        }
    }

    /// The characters of a text; `None` for any other kind of value.
    pub open spec fn text(self) -> Option<Seq<char>> {
        match self {
            Node::Text(chars) => Some(chars),
            _ => None,
        }
    }

    /// The texts of a list that holds nothing but texts; `None` for a list
    /// with another kind of item, and for any other kind of value.
    pub open spec fn texts(self) -> Option<Seq<Seq<char>>> {
        match self {
            Node::List(items) => if forall|i: int| 0 <= i < items.len() ==> items[i] is Text {
                Some(Seq::new(items.len(), |i: int| items[i]->Text_0))
            } else {
                None
            },
            _ => None,
        }
    }
}

/// What a `Pod` holds: its variant and, below it, the values in it. For a
/// hash these are the entries by key, not the order in which it walks them.
pub uninterp spec fn pod_node(pod: gray_matter::Pod) -> Node;

/// What gray_matter, reading YAML between `---` lines, makes of a text:
/// `None` where it reports an error; else the parsed block, if the text has
/// one that is not empty, and the text that follows the block.
pub uninterp spec fn front_matter(text: Seq<char>) -> Option<(Option<Node>, Seq<char>)>;

/// What each of a run of parsed values holds.
pub open spec fn pod_nodes(pods: Seq<gray_matter::Pod>) -> Seq<Node> {
    pods.map_values(|pod: gray_matter::Pod| pod_node(pod))
}

/// What a parsed block holds, where there is one.
pub open spec fn block_node(data: Option<gray_matter::Pod>) -> Option<Node> {
    match data {
        Some(pod) => Some(pod_node(pod)),
        None => None,
    }
}

/// Calls `gray_matter::Matter::<YAML>::new().parse` and hands on the fields
/// `data` and `content` of what it returns. Trusted: that both depend on the
/// text alone, which `front_matter` names. Nothing is claimed about what
/// gray_matter takes for a block or how it reads YAML.
#[verifier::external_body]
fn split_matter(text: &str) -> (parsed: Result<
    (Option<gray_matter::Pod>, String),
    gray_matter::Error,
>)
    ensures
        parsed matches Ok(parts) ==> front_matter(text@) == Some((block_node(parts.0), parts.1@)),
        parsed is Err ==> front_matter(text@) is None,
{
    let parsed: gray_matter::ParsedEntity =
        gray_matter::Matter::<gray_matter::engine::YAML>::new().parse(text)?;
    Ok((parsed.data, parsed.content))
}

/// Calls `gray_matter::Pod::remove`. Trusted, as its source shows: from a
/// hash it takes the entry under the key out and returns the value, or a
/// null value where the hash has no such entry; any other value it leaves as
/// it is and returns a null value.
#[verifier::external_body]
fn take_entry(data: &mut gray_matter::Pod, key: &str) -> (value: gray_matter::Pod)
    ensures
        pod_node(value) == pod_node(*old(data)).entry(key@),
        pod_node(*final(data)) == pod_node(*old(data)).without(key@),
{
    data.remove(key.to_string())
}

/// Calls `gray_matter::Pod::as_string`. Trusted, as its source shows: a
/// string value gives a copy of its text, every other value an error.
#[verifier::external_body]
fn text_of(value: &gray_matter::Pod) -> (text: Result<String, gray_matter::Error>)
    ensures
        text matches Ok(chars) ==> pod_node(*value) == Node::Text(chars@),
        text is Err ==> !(pod_node(*value) is Text),
{
    value.as_string()
}

/// Calls `gray_matter::Pod::as_vec`. Trusted, as its source shows: an array
/// gives a copy of its items in their order, every other value an error.
#[verifier::external_body]
fn items_of(value: &gray_matter::Pod) -> (items: Result<Vec<gray_matter::Pod>, gray_matter::Error>)
    ensures
        items matches Ok(pods) ==> pod_node(*value) == Node::List(pod_nodes(pods@)),
        items is Err ==> !(pod_node(*value) is List),
{
    value.as_vec()
}

/// The characters of each of a run of strings.
pub open spec fn text_views(texts: Seq<String>) -> Seq<Seq<char>> {
    texts.map_values(|text: String| text@)
}

/// The characters of a string that may be missing.
pub open spec fn optional_text(text: Option<String>) -> Option<Seq<char>> {
    match text {
        Some(chars) => Some(chars@),
        None => None,
    }
}

/// The characters of each string of a list that may be missing.
pub open spec fn optional_texts(texts: Option<Vec<String>>) -> Option<Seq<Seq<char>>> {
    match texts {
        Some(list) => Some(text_views(list@)),
        None => None,
    }
}

/// The four entries of a metadata block that a project is made of, each as
/// far as the block holds it in the right shape.
#[derive(Clone, Debug, PartialEq, Eq)]
pub struct FrontMatter {
    /// The entry `title`, where it is a text.
    pub title: Option<String>,
    /// The entry `date`, where it is a text.
    pub date: Option<String>,
    /// The entry `description`, where it is a text.
    pub description: Option<String>,
    /// The entry `tech`, where it is a list of texts.
    pub tech: Option<Vec<String>>,
}

/// A `FrontMatter` in sequences of characters.
pub struct FrontMatterView {
    pub title: Option<Seq<char>>,
    pub date: Option<Seq<char>>,
    pub description: Option<Seq<char>>,
    pub tech: Option<Seq<Seq<char>>>,
}

impl View for FrontMatter {
    type V = FrontMatterView;

    open spec fn view(&self) -> FrontMatterView {
        FrontMatterView {
            title: optional_text(self.title),
            date: optional_text(self.date),
            description: optional_text(self.description),
            tech: optional_texts(self.tech),
        }
    }
}

/// The entries that a parsed block gives to a project.
pub open spec fn matter_of(block: Node) -> FrontMatterView {
    FrontMatterView {
        title: block.entry(TITLE_KEY@).text(),
        date: block.entry(DATE_KEY@).text(),
        description: block.entry(DESCRIPTION_KEY@).text(),
        tech: block.entry(TECH_KEY@).texts(),
    }
}

/// The four keys differ from one another.
proof fn lemma_keys_differ()
    ensures
        TITLE_KEY@ != DATE_KEY@,
        TITLE_KEY@ != DESCRIPTION_KEY@,
        TITLE_KEY@ != TECH_KEY@,
        DATE_KEY@ != DESCRIPTION_KEY@,
        DATE_KEY@ != TECH_KEY@,
        DESCRIPTION_KEY@ != TECH_KEY@,
{
    reveal_strlit("title");
    reveal_strlit("date");
    reveal_strlit("description");
    reveal_strlit("tech");
    assert(TITLE_KEY@.len() == 5);
    assert(DATE_KEY@.len() == 4);
    assert(DESCRIPTION_KEY@.len() == 11);
    assert(TECH_KEY@.len() == 4);
    assert(DATE_KEY@[0] == 'd' && TECH_KEY@[0] == 't');
}

/// Takes the entry under `key` out of `data` and returns its text, if it is one.
fn take_text(data: &mut gray_matter::Pod, key: &str) -> (text: Option<String>)
    ensures
        optional_text(text) == pod_node(*old(data)).entry(key@).text(),
        pod_node(*final(data)) == pod_node(*old(data)).without(key@),
{
    let value = take_entry(data, key);
    match text_of(&value) {
        Ok(chars) => Some(chars),
        Err(_) => None,
    }
}

/// The texts of `items`, if each of them is a text.
fn all_texts(items: &Vec<gray_matter::Pod>) -> (texts: Option<Vec<String>>)
    ensures
        optional_texts(texts) == Node::List(pod_nodes(items@)).texts(),
{
    let ghost nodes = pod_nodes(items@);
    let mut texts: Vec<String> = Vec::new();
    let mut at: usize = 0;
    while at < items.len()
        invariant
            at <= items.len(),
            nodes == pod_nodes(items@),
            texts.len() == at,
            forall|i: int| 0 <= i < at ==> nodes[i] == Node::Text((#[trigger] texts[i])@),
        decreases items.len() - at,
    {
        match text_of(&items[at]) {
            Ok(chars) => {
                texts.push(chars);
            },
            Err(_) => {
                assert(!(nodes[at as int] is Text));
                return None;
            },
        }
        at = at + 1;
    }
    proof {
        assert forall|i: int| 0 <= i < nodes.len() implies nodes[i] is Text by {
            assert(nodes[i] == Node::Text(texts[i]@));
        }
        assert(text_views(texts@) =~= Seq::new(nodes.len(), |i: int| nodes[i]->Text_0));
    }
    Some(texts)
}

/// Takes the entry under `key` out of `data` and returns its texts, if it is
/// a list of nothing but texts.
fn take_texts(data: &mut gray_matter::Pod, key: &str) -> (texts: Option<Vec<String>>)
    ensures
        optional_texts(texts) == pod_node(*old(data)).entry(key@).texts(),
        pod_node(*final(data)) == pod_node(*old(data)).without(key@),
{
    let value = take_entry(data, key);
    match items_of(&value) {
        Ok(items) => all_texts(&items),
        Err(_) => None,
    }
}

impl FrontMatter {
    /// Reads the four entries from a parsed block.
    pub fn from_pod(data: gray_matter::Pod) -> (matter: FrontMatter)
        ensures
            matter@ == matter_of(pod_node(data)),
    {
        let mut rest = data;
        proof {
            lemma_keys_differ();
        }
        let title = take_text(&mut rest, TITLE_KEY);
        let date = take_text(&mut rest, DATE_KEY);
        let description = take_text(&mut rest, DESCRIPTION_KEY);
        let tech = take_texts(&mut rest, TECH_KEY);
        FrontMatter { title, date, description, tech }
    }

    /// The entries of a file without a metadata block: none.
    pub fn empty() -> (matter: FrontMatter)
        ensures
            matter@ == matter_of(Node::Null),
    {
        FrontMatter { title: None, date: None, description: None, tech: None }
    }
}

/// A content file taken apart: the entries of its metadata block and the
/// text that follows the block.
#[derive(Clone, Debug, PartialEq, Eq)]
pub struct Document {
    pub matter: FrontMatter,
    pub body: String,
}

/// A `Document` in sequences of characters.
pub struct DocumentView {
    pub matter: FrontMatterView,
    pub body: Seq<char>,
}

impl View for Document {
    type V = DocumentView;

    open spec fn view(&self) -> DocumentView {
        DocumentView { matter: self.matter@, body: self.body@ }
    }
}

/// The document that a text holds: `None` where its metadata block cannot be
/// read. A text without a block is a document without entries.
pub open spec fn document_of(text: Seq<char>) -> Option<DocumentView> {
    match front_matter(text) {
        Some((Some(block), body)) => Some(DocumentView { matter: matter_of(block), body }),
        Some((None, body)) => Some(DocumentView { matter: matter_of(Node::Null), body }),
        None => None,
    }
}

impl Document {
    /// Takes a content file apart. `None` where the block between the `---`
    /// lines is not valid YAML.
    pub fn parse(text: &str) -> (document: Option<Document>)
        ensures
            document is Some <==> document_of(text@) is Some,
            document matches Some(found) ==> document_of(text@) == Some(found@),
    {
        match split_matter(text) {
            Ok((Some(data), body)) => Some(Document { matter: FrontMatter::from_pod(data), body }),
            Ok((None, body)) => Some(Document { matter: FrontMatter::empty(), body }),
            Err(_) => None,
        }
    }
}

} // verus!
