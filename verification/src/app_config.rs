//! The window and frame-rate settings an application starts with.
use vstd::prelude::*;

verus! {

/// Builder for an AethelGUI window.
#[derive(Debug, Clone)]
pub struct AethelGui {
    overlay: bool,
    title: String,
    width: u32,
    height: u32,
    target_fps: Option<u32>,
}

impl AethelGui {
    pub closed spec fn spec_overlay(&self) -> bool {
        self.overlay
    }

    pub closed spec fn spec_title(&self) -> Seq<char> {
        self.title@
    }

    pub closed spec fn spec_size(&self) -> (u32, u32) {
        (self.width, self.height)
    }

    pub closed spec fn spec_target_fps(&self) -> Option<u32> {
        self.target_fps
    }

    /// A regular 1280x720 window titled "AethelGUI" with no frame cap.
    pub fn new() -> (r: Self)
        ensures
            !r.spec_overlay(),
            r.spec_size() == (1280u32, 720u32),
            r.spec_target_fps() is None,
            r.spec_title() == "AethelGUI"@,
    {
        AethelGui {
            overlay: false,
            title: String::from_str("AethelGUI"),
            width: 1280,
            height: 720,
            target_fps: None,
        }
    }

    /// A transparent, undecorated, always-on-top window when `yes`.
    pub fn overlay(self, yes: bool) -> (r: Self)
        ensures
            r.spec_overlay() == yes,
            r.spec_title() == self.spec_title(),
            r.spec_size() == self.spec_size(),
            r.spec_target_fps() == self.spec_target_fps(),
    {
        let mut s = self;
        s.overlay = yes;
        s
    }

    pub fn title(self, title: String) -> (r: Self)
        ensures
            r.spec_title() == title@,
            r.spec_overlay() == self.spec_overlay(),
            r.spec_size() == self.spec_size(),
            r.spec_target_fps() == self.spec_target_fps(),
    {
        let mut s = self;
        s.title = title;
        s
    }

    pub fn size(self, width: u32, height: u32) -> (r: Self)
        ensures
            r.spec_size() == (width, height),
            r.spec_overlay() == self.spec_overlay(),
            r.spec_title() == self.spec_title(),
            r.spec_target_fps() == self.spec_target_fps(),
    {
        let mut s = self;
        s.width = width;
        s.height = height;
        s
    }

    /// Caps the frame rate at `fps`, at least 1.
    pub fn max_fps(self, fps: u32) -> (r: Self)
        ensures
            r.spec_target_fps() == Some(if fps >= 1 { fps } else { 1u32 }),
            r.spec_overlay() == self.spec_overlay(),
            r.spec_title() == self.spec_title(),
            r.spec_size() == self.spec_size(),
    {
        let mut s = self;
        s.target_fps = Some(if fps >= 1 { fps } else { 1 });
        s
    }

    pub fn is_overlay(&self) -> (r: bool)
        ensures
            r == self.spec_overlay(),
    {
        self.overlay
    }

    pub fn title_str(&self) -> (r: &str)
        ensures
            r@ == self.spec_title(),
    {
        self.title.as_str()
    }

    pub fn width(&self) -> (r: u32)
        ensures
            r == self.spec_size().0,
    {
        self.width
    }

    pub fn height(&self) -> (r: u32)
        ensures
            r == self.spec_size().1,
    {
        self.height
    }

    pub fn target_fps(&self) -> (r: Option<u32>)
        ensures
            r == self.spec_target_fps(),
    {
        self.target_fps
    }

    /// The shortest time between frames in nanoseconds: a second divided by
    /// the frame cap, when there is one.
    pub fn frame_budget_nanos(&self) -> (r: Option<u64>)
        ensures
            r == match self.spec_target_fps() {
                Some(fps) => if fps == 0 { None } else { Some((1_000_000_000u64 / (fps as u64)) as u64) },
                None => None::<u64>,
            },
    {
        match self.target_fps {
            Some(fps) => {
                if fps == 0 {
                    None
                } else {
                    Some(1_000_000_000u64 / (fps as u64))
                }
            },
            None => None,
        }
    }
}

impl Default for AethelGui {
    fn default() -> (r: Self)
        ensures
            !r.spec_overlay(),
            r.spec_size() == (1280u32, 720u32),
            r.spec_target_fps() is None,
            r.spec_title() == "AethelGUI"@,
    {
        Self::new()
    }
}

} // verus!
