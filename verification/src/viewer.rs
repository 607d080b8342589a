//! The viewer controller: owns the presentation and its navigation state,
//! turns key events into steps, and describes for the host what the
//! current frame should draw.

use vstd::prelude::*;

use crate::layout::{
    font_size_milli_spec, layout, margin_milli_spec, WIDTH_MILLI_MAX,
};
use crate::nav::NavigationState;
use crate::slide::{slides_view, Slide, SlideModel};

verus! {

/// A discrete input event, as the host maps its own key codes: one
/// designated key steps back, one steps forward, every other key is
/// ignored.
#[derive(Clone, Copy, Debug, PartialEq, Eq, Structural)]
pub enum KeyEvent {
    Previous,
    Next,
    Other,
}

/// What the host should draw this frame: centered text at a computed font
/// size and margin, or a centered image scaled to fit. Sizes are in
/// milli-units of the viewport width's unit.
#[derive(Debug, PartialEq, Eq)]
pub enum RenderSpec {
    Text { text: String, font_size_milli: u64, margin_milli: u64 },
    Image { uri: String },
}

/// The mathematical model of a `RenderSpec`.
pub enum RenderModel {
    Text { text: Seq<char>, font_size_milli: int, margin_milli: int },
    Image { uri: Seq<char> },
}

impl View for RenderSpec {
    type V = RenderModel;

    open spec fn view(&self) -> RenderModel {
        match self {
            RenderSpec::Text { text, font_size_milli, margin_milli } => RenderModel::Text {
                text: text@,
                font_size_milli: *font_size_milli as int,
                margin_milli: *margin_milli as int,
            },
            RenderSpec::Image { uri } => RenderModel::Image { uri: uri@ },
        }
    }
}

/// What a slide is rendered as at viewport width `w`: a paragraph gets the
/// layout engine's font size and margin, an image is drawn from its
/// locator as it stands.
pub open spec fn render_spec_of(slide: SlideModel, w: int) -> RenderModel {
    match slide {
        SlideModel::Paragraph(t) => RenderModel::Text {
            text: t,
            font_size_milli: font_size_milli_spec(w, t),
            margin_milli: margin_milli_spec(w),
        },
        SlideModel::Image(u) => RenderModel::Image { uri: u },
    }
}

/// The viewer: a non-empty presentation, owned for the life of the
/// program, and the navigation state that walks it.
pub struct Viewer {
    slides: Vec<Slide>,
    nav: NavigationState,
}

impl Viewer {
    /// The controller's invariant: at least one slide, and the navigation
    /// state ranges over exactly the slides.
    pub closed spec fn wf(self) -> bool {
        self.nav.wf() && self.nav.total == self.slides.len()
    }

    /// The slides shown, in order.
    pub closed spec fn slides_model(self) -> Seq<SlideModel> {
        slides_view(self.slides@)
    }

    /// The navigation state.
    pub closed spec fn nav_model(self) -> NavigationState {
        self.nav
    }

    /// A well-formed viewer's navigation state is itself well-formed and
    /// ranges over exactly the slides, so the current index always falls
    /// short of the slide count.
    pub proof fn lemma_wf_bounds(self)
        requires
            self.wf(),
        ensures
            self.nav_model().wf(),
            self.nav_model().total == self.slides_model().len(),
            self.nav_model().current < self.slides_model().len(),
    {
    }

    /// A viewer for a freshly parsed presentation, standing on its first
    /// slide.
    pub fn new(slides: Vec<Slide>) -> (v: Viewer)
        requires
            slides@.len() >= 1,
        ensures
            v.wf(),
            v.slides_model() == slides_view(slides@),
            v.nav_model().current == 0,
            v.nav_model().total == slides@.len(),
    {
        let total = slides.len();
        Viewer { slides, nav: NavigationState::new(total) }
    }

    /// Handles one key event: the previous-key retreats, the next-key
    /// advances, anything else changes nothing. The slides never change.
    pub fn on_key(&mut self, key: KeyEvent)
        requires
            old(self).wf(),
        ensures
            final(self).wf(),
            final(self).slides_model() == old(self).slides_model(),
            final(self).nav_model() == match key {
                KeyEvent::Previous => old(self).nav_model().retreat_spec(),
                KeyEvent::Next => old(self).nav_model().advance_spec(),
                KeyEvent::Other => old(self).nav_model(),
            },
    {
        match key {
            KeyEvent::Previous => self.nav.retreat(),
            KeyEvent::Next => self.nav.advance(),
            KeyEvent::Other => (),
        }
    }

    /// The current slide index.
    pub fn current_index(&self) -> (i: usize)
        ensures
            i == self.nav_model().current,
    {
        self.nav.index()
    }

    /// How many slides the presentation holds.
    pub fn slide_count(&self) -> (n: usize)
        ensures
            n == self.slides_model().len(),
    {
        self.slides.len()
    }

    /// Describes the current frame for the host: the slide the navigation
    /// state points at, rendered at viewport width `width_milli`.
    pub fn current_view(&self, width_milli: u64) -> (r: RenderSpec)
        requires
            self.wf(),
            width_milli <= WIDTH_MILLI_MAX,
        ensures
            r@ == render_spec_of(
                self.slides_model()[self.nav_model().current as int],
                width_milli as int,
            ),
    {
        let idx = self.nav.index();
        match &self.slides[idx] {
            Slide::Paragraph(t) => {
                let l = layout(t.as_str(), width_milli);
                RenderSpec::Text {
                    text: t.clone(),
                    font_size_milli: l.font_size_milli,
                    margin_milli: l.margin_milli,
                }
            },
            Slide::Image(u) => RenderSpec::Image { uri: u.clone() },
        }
    }
}

} // verus!
