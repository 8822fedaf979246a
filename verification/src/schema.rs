//! Caption styling options carried inside a render specification.

use vstd::prelude::*;

verus! {

/// How captions are drawn over the video: font, style, size, position and
/// colors. Every field is optional; the renderer supplies its defaults.
pub struct CaptionOptions {
    pub font: Option<String>,
    pub font_path: Option<String>,
    pub style: Option<String>,
    pub size: Option<u32>,
    pub position: Option<String>,
    pub color: Option<String>,
    pub background: Option<String>,
}

impl Clone for CaptionOptions {
    fn clone(&self) -> (res: Self)
        ensures
            res == *self,
    {
        CaptionOptions {
            font: self.font.clone(),
            font_path: self.font_path.clone(),
            style: self.style.clone(),
            size: self.size,
            position: self.position.clone(),
            color: self.color.clone(),
            background: self.background.clone(),
        }
    }
}

impl CaptionOptions {
    /// Options that leave every choice to the renderer.
    pub fn empty() -> (r: Self)
        ensures
            r.font is None,
            r.font_path is None,
            r.style is None,
            r.size is None,
            r.position is None,
            r.color is None,
            r.background is None,
    {
        CaptionOptions {
            font: None,
            font_path: None,
            style: None,
            size: None,
            position: None,
            color: None,
            background: None,
        }
    }
}

} // verus!
