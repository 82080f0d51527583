//! The description of a page, drawn from the elements of its head.

use crate::text::{strip, stripped_of, text_of};
use vstd::prelude::*;

verus! {

/// The request for the description of the page at an address.
#[derive(Debug, Clone, PartialEq, Eq)]
pub struct MetatagsRequest {
    pub url: String,
}

/// The description of a page.
#[derive(Debug, Clone, PartialEq, Eq)]
pub struct Metatag {
    pub title: Option<String>,
    pub description: Option<String>,
    pub image_url: Option<String>,
}

/// What a description holds, with its texts as sequences of characters.
pub struct MetatagView {
    pub title: Option<Seq<char>>,
    pub description: Option<Seq<char>>,
    pub image_url: Option<Seq<char>>,
}

impl View for Metatag {
    type V = MetatagView;

    open spec fn view(&self) -> MetatagView {
        MetatagView {
            title: text_of(self.title),
            description: text_of(self.description),
            image_url: text_of(self.image_url),
        }
    }
}

impl Default for Metatag {
    fn default() -> (metatag: Metatag)
        ensures
            metatag@ == (MetatagView { title: None, description: None, image_url: None }),
    {
        Metatag { title: None, description: None, image_url: None }
    }
}

/// The selector of the title of a page.
pub const TITLE: &'static str = "title";

/// The selector of the plain description of a page.
pub const DESCRIPTION: &'static str = "meta[name=\"description\"]";

/// The selector of the title of a page in the Open Graph vocabulary.
pub const OPENGRAPH_TITLE: &'static str = "meta[property=\"og:title\"]";

/// The selector of the description of a page in the Open Graph vocabulary.
pub const OPENGRAPH_DESCRIPTION: &'static str = "meta[property=\"og:description\"]";

/// The selector of the image of a page in the Open Graph vocabulary.
pub const OPENGRAPH_IMAGE: &'static str = "meta[property=\"og:image\"]";

/// The selector of the title of a page in the Twitter vocabulary.
pub const TWITTER_TITLE: &'static str = "meta[name=\"twitter:title\"]";

/// The selector of the description of a page in the Twitter vocabulary.
pub const TWITTER_DESCRIPTION: &'static str = "meta[name=\"twitter:description\"]";

/// The selector of the image of a page in the Twitter vocabulary.
pub const TWITTER_IMAGE: &'static str = "meta[name=\"twitter:image\"]";

/// The name of the attribute that holds what a `meta` element says.
pub const CONTENT: &'static str = "content";

/// What is read of an element of a page: its first piece of text, and its
/// `content` attribute.
#[derive(Debug, Clone, PartialEq, Eq)]
pub struct Element {
    pub text: Option<String>,
    pub content: Option<String>,
}

/// What is read of an element, with its texts as sequences of characters.
pub struct ElementView {
    pub text: Option<Seq<char>>,
    pub content: Option<Seq<char>>,
}

impl View for Element {
    type V = ElementView;

    open spec fn view(&self) -> ElementView {
        ElementView { text: text_of(self.text), content: text_of(self.content) }
    }
}

/// The view of an optional element.
pub open spec fn element_of(element: Option<Element>) -> Option<ElementView> {
    match element {
        Some(e) => Some(e@),
        None => None,
    }
}

/// The view of an optional description.
pub open spec fn metatag_of(metatag: Option<Metatag>) -> Option<MetatagView> {
    match metatag {
        Some(m) => Some(m@),
        None => None,
    }
}

/// The `content` attribute of an element: empty where there is no element or
/// the element has no such attribute.
pub open spec fn content_of(element: Option<ElementView>) -> Seq<char> {
    match element {
        Some(e) => match e.content {
            Some(c) => c,
            None => Seq::empty(),
        },
        None => Seq::empty(),
    }
}

/// The first piece of text of an element, without the white space around
/// it: empty where there is no element or the element has no text.
pub open spec fn text_in(element: Option<ElementView>) -> Seq<char> {
    match element {
        Some(e) => match e.text {
            Some(t) => stripped_of(t),
            None => Seq::empty(),
        },
        None => Seq::empty(),
    }
}

/// The description that the title and the plain description of a page give:
/// none where the page has neither.
pub open spec fn plain_description(
    title: Option<ElementView>,
    description: Option<ElementView>,
) -> Option<MetatagView> {
    if title is None && description is None {
        None
    } else {
        Some(
            MetatagView {
                title: Some(text_in(title)),
                description: Some(content_of(description)),
                image_url: None,
            },
        )
    }
}

/// The description that the elements of one vocabulary give: none where the
/// page has none of them.
pub open spec fn vocabulary_description(
    title: Option<ElementView>,
    description: Option<ElementView>,
    image_url: Option<ElementView>,
) -> Option<MetatagView> {
    if title is None && description is None && image_url is None {
        None
    } else {
        Some(
            MetatagView {
                title: Some(content_of(title)),
                description: Some(content_of(description)),
                image_url: Some(content_of(image_url)),
            },
        )
    }
}

/// The `content` attribute of `element`, empty where there is none.
pub fn value_from_select(element: &Option<Element>) -> (value: String)
    ensures
        value@ == content_of(element_of(*element)),
{
    match element {
        Some(e) => match &e.content {
            Some(c) => c.clone(),
            None => String::new(),
        },
        None => String::new(),
    }
}

/// The description that the title and the plain description of a page give.
pub fn extract_from_plain(title: &Option<Element>, description: &Option<Element>) -> (metatag:
    Option<Metatag>)
    ensures
        metatag_of(metatag) == plain_description(element_of(*title), element_of(*description)),
{
    if title.is_none() && description.is_none() {
        return None;
    }
    let text = match title {
        Some(e) => match &e.text {
            Some(t) => strip(t.as_str()),
            None => String::new(),
        },
        None => String::new(),
    };
    Some(
        Metatag {
            title: Some(text),
            description: Some(value_from_select(description)),
            image_url: None,
        },
    )
}

/// The description that the elements of the Open Graph vocabulary give.
pub fn extract_from_opengraph(
    title: &Option<Element>,
    description: &Option<Element>,
    image_url: &Option<Element>,
) -> (metatag: Option<Metatag>)
    ensures
        metatag_of(metatag) == vocabulary_description(
            element_of(*title),
            element_of(*description),
            element_of(*image_url),
        ),
{
    if title.is_none() && description.is_none() && image_url.is_none() {
        return None;
    }
    Some(
        Metatag {
            title: Some(value_from_select(title)),
            description: Some(value_from_select(description)),
            image_url: Some(value_from_select(image_url)),
        },
    )
}

/// The description that the elements of the Twitter vocabulary give.
pub fn extract_from_twitter(
    title: &Option<Element>,
    description: &Option<Element>,
    image_url: &Option<Element>,
) -> (metatag: Option<Metatag>)
    ensures
        metatag_of(metatag) == vocabulary_description(
            element_of(*title),
            element_of(*description),
            element_of(*image_url),
        ),
{
    extract_from_opengraph(title, description, image_url)
}

/// What is read of a page: the elements that describe it, each where the
/// page has one.
#[derive(Debug, Clone, PartialEq, Eq)]
pub struct Page {
    pub title: Option<Element>,
    pub description: Option<Element>,
    pub opengraph_title: Option<Element>,
    pub opengraph_description: Option<Element>,
    pub opengraph_image: Option<Element>,
    pub twitter_title: Option<Element>,
    pub twitter_description: Option<Element>,
    pub twitter_image: Option<Element>,
}

impl Page {
    /// The description of the page: the plain one where the page has a title
    /// or a plain description, else that of the Open Graph vocabulary, else
    /// that of the Twitter vocabulary.
    pub open spec fn description_of(self) -> Option<MetatagView> {
        let plain = plain_description(element_of(self.title), element_of(self.description));
        let opengraph = vocabulary_description(
            element_of(self.opengraph_title),
            element_of(self.opengraph_description),
            element_of(self.opengraph_image),
        );
        let twitter = vocabulary_description(
            element_of(self.twitter_title),
            element_of(self.twitter_description),
            element_of(self.twitter_image),
        );
        if plain is Some {
            plain
        } else if opengraph is Some {
            opengraph
        } else {
            twitter
        }
    }

    /// The description of the page. `None` where the page has none of the
    /// elements that describe it.
    pub fn extract(&self) -> (metatag: Option<Metatag>)
        ensures
            metatag_of(metatag) == self.description_of(),
    {
        match extract_from_plain(&self.title, &self.description) {
            Some(metatag) => Some(metatag),
            None => match extract_from_opengraph(
                &self.opengraph_title,
                &self.opengraph_description,
                &self.opengraph_image,
            ) {
                Some(metatag) => Some(metatag),
                None => extract_from_twitter(
                    &self.twitter_title,
                    &self.twitter_description,
                    &self.twitter_image,
                ),
            },
        }
    }
}

} // verus!
