//! The viewer's document state: what is shown, how, and whether it is a slide deck.

use vstd::prelude::*;

use crate::page::{generate_presentation_html, presentation_page};
use crate::slidev::{detect_presentation, is_presentation};

verus! {

/// Whether the document is being read or edited.
#[derive(Debug, Clone, Copy, PartialEq, Eq, Structural)]
pub enum AppMode {
    Preview,
    Edit,
}

impl Default for AppMode {
    fn default() -> (r: Self)
        ensures
            r == AppMode::Preview,
    {
        AppMode::Preview
    }
}

/// The open document of a viewer window, with its mode and whether it can be presented.
pub struct ViewState {
    mode: AppMode,
    content: String,
    has_presentation: bool,
}

impl ViewState {
    /// The presentation flag always follows the content.
    pub closed spec fn wf(&self) -> bool {
        self.has_presentation == is_presentation(self.content@)
    }

    pub closed spec fn spec_mode(&self) -> AppMode {
        self.mode
    }

    pub closed spec fn spec_content(&self) -> Seq<char> {
        self.content@
    }

    /// A fresh view of `content`, in preview mode.
    pub fn new(content: String) -> (r: Self)
        ensures
            r.wf(),
            r.spec_mode() == AppMode::Preview,
            r.spec_content() == content@,
    {
        let has_presentation = detect_presentation(content.as_str());
        ViewState { mode: AppMode::Preview, content, has_presentation }
    }

    /// Takes the text that the editor now holds; the mode stays as it is.
    pub fn update_content(&mut self, content: String)
        ensures
            final(self).wf(),
            final(self).spec_mode() == old(self).spec_mode(),
            final(self).spec_content() == content@,
    {
        self.has_presentation = detect_presentation(content.as_str());
        self.content = content;
    }

    /// Replaces the document with a newly opened one, shown in preview mode.
    pub fn open_document(&mut self, content: String)
        ensures
            final(self).wf(),
            final(self).spec_mode() == AppMode::Preview,
            final(self).spec_content() == content@,
    {
        self.update_content(content);
        self.mode = AppMode::Preview;
    }

    /// Switches between preview and edit mode; the document is kept.
    pub fn set_mode(&mut self, mode: AppMode)
        ensures
            final(self).spec_mode() == mode,
            final(self).spec_content() == old(self).spec_content(),
            final(self).wf() == old(self).wf(),
    {
        self.mode = mode;
    }

    pub fn mode(&self) -> (r: AppMode)
        ensures
            r == self.spec_mode(),
    {
        self.mode
    }

    pub fn content(&self) -> (r: &str)
        ensures
            r@ == self.spec_content(),
    {
        self.content.as_str()
    }

    /// Whether the document should be offered as a presentation.
    pub fn has_presentation(&self) -> (r: bool)
        requires
            self.wf(),
        ensures
            r == is_presentation(self.spec_content()),
    {
        self.has_presentation
    }

    /// The presentation page of the document, when it is a slide deck.
    pub fn presentation_html(&self) -> (r: Option<String>)
        requires
            self.wf(),
        ensures
            is_presentation(self.spec_content()) <==> r is Some,
            r matches Some(h) ==> h@ == presentation_page(self.spec_content()),
    {
        if self.has_presentation {
            Some(generate_presentation_html(self.content.as_str()))
        } else {
            None
        }
    }
}

} // verus!
