use vstd::prelude::*;

verus! {

/// The mathematical value of a tag: its namespace and its local name.
pub type TagView = (Seq<char>, Seq<char>);

/// Tells whether two strings hold the same characters.
pub fn str_eq(a: &str, b: &str) -> (r: bool)
    ensures
        r == (a@ == b@),
{
    let n = a.unicode_len();
    if n != b.unicode_len() {
        return false;
    }
    let mut i: usize = 0;
    while i < n
        invariant
            n == a@.len(),
            n == b@.len(),
            i <= n,
            forall|j: int| 0 <= j < i ==> a@[j] == b@[j],
        decreases n - i,
    {
        if a.get_char(i) != b.get_char(i) {
            return false;
        }
        i = i + 1;
    }
    assert(a@ =~= b@);
    true
}

/// An element's identity: a namespace and a local name.
#[derive(Debug)]
pub struct Tag {
    namespace: String,
    name: String,
}

impl View for Tag {
    type V = TagView;

    closed spec fn view(&self) -> TagView {
        (self.namespace@, self.name@)
    }
}

impl Tag {
    pub fn new(namespace: String, name: String) -> (r: Tag)
        ensures
            r@ == (namespace@, name@),
    {
        Tag { namespace, name }
    }

    pub fn from_refs(namespace: &str, name: &str) -> (r: Tag)
        ensures
            r@ == (namespace@, name@),
    {
        Tag { namespace: namespace.to_owned(), name: name.to_owned() }
    }

    pub fn namespace(&self) -> (r: &str)
        ensures
            r@ == self@.0,
    {
        self.namespace.as_str()
    }

    pub fn name(&self) -> (r: &str)
        ensures
            r@ == self@.1,
    {
        self.name.as_str()
    }

    pub fn matches(&self, namespace: &str, name: &str) -> (r: bool)
        ensures
            r == (self@ == (namespace@, name@)),
    {
        str_eq(namespace, self.namespace()) && str_eq(name, self.name())
    }
}

/// The open tags, in the order in which they were opened.
pub struct ParseState {
    open_tags: Vec<Tag>,
}

impl View for ParseState {
    type V = Seq<TagView>;

    closed spec fn view(&self) -> Seq<TagView> {
        self.open_tags@.map_values(|t: Tag| t@)
    }
}

impl ParseState {
    pub fn new() -> (r: ParseState)
        ensures
            r@ == Seq::<TagView>::empty(),
    {
        let r = ParseState { open_tags: Vec::new() };
        assert(r@ =~= Seq::<TagView>::empty());
        r
    }

    pub fn with_open_tags(tags: Vec<Tag>) -> (r: ParseState)
        ensures
            r@ == tags@.map_values(|t: Tag| t@),
    {
        ParseState { open_tags: tags }
    }

    /// The innermost open tag, if any.
    pub fn last_opened_tag(&self) -> (r: Option<&Tag>)
        ensures
            self@.len() == 0 ==> r is None,
            self@.len() > 0 ==> r is Some && r->0@ == self@.last(),
    {
        let n = self.open_tags.len();
        if n == 0 {
            None
        } else {
            Some(&self.open_tags[n - 1])
        }
    }

    pub fn open_tag(&mut self, tag: Box<Tag>)
        ensures
            final(self)@ == old(self)@.push(tag@),
    {
        self.open_tags.push(*tag);
        assert(final(self)@ =~= old(self)@.push(tag@));
    }

    /// Removes and returns the innermost open tag, or `None` when no tag is open.
    pub fn close_tag(&mut self) -> (r: Option<Box<Tag>>)
        ensures
            old(self)@.len() == 0 ==> r is None && final(self)@ == old(self)@,
            old(self)@.len() > 0 ==> r is Some && r->0@ == old(self)@.last()
                && final(self)@ == old(self)@.drop_last(),
    {
        match self.open_tags.pop() {
            Some(t) => {
                assert(self@ =~= old(self)@.drop_last());
                Some(Box::new(t))
            },
            None => None,
        }
    }
}

} // verus!

verus! {

/// What the driver tells a subparser.
pub enum Event<'a> {
    TagAboutToOpen(&'a Tag),
    TagClosed(&'a Tag),
    Text(&'a str),
}

/// The mathematical value of an `Event`.
pub enum XmlEventView {
    TagAboutToOpen(TagView),
    TagClosed(TagView),
    Text(Seq<char>),
}

impl<'a> Event<'a> {
    pub open spec fn view(&self) -> XmlEventView {
        match self {
            Event::TagAboutToOpen(t) => XmlEventView::TagAboutToOpen(t@),
            Event::TagClosed(t) => XmlEventView::TagClosed(t@),
            Event::Text(s) => XmlEventView::Text(s@),
        }
    }
}

} // verus!
