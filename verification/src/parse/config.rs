//! The configuration of the display: default split file, background
//! image, colors and fonts.
use vstd::prelude::*;

verus! {

/// Path of the font that a default configuration uses for both the timer
/// and the rows of splits.
pub open spec fn default_font() -> Seq<char> {
    "assets/segoe-ui-bold.ttf"@
}

/// The colors of a default configuration, in the order ahead, behind,
/// gaining, losing, gold, background.
pub open spec fn default_colors() -> Seq<(u8, u8, u8)> {
    seq![
        (0u8, 255u8, 0u8),
        (255u8, 0u8, 0u8),
        (255u8, 90u8, 90u8),
        (135u8, 255u8, 125u8),
        (255u8, 255u8, 0u8),
        (0u8, 0u8, 0u8),
    ]
}

/// Configuration of the timer's display.
pub struct Config {
    def_file: Option<String>,
    img_file: Option<String>,
    img_scaled: bool,
    colors: [(u8, u8, u8); 6],
    t_font: String,
    s_font: String,
    font_size: (u16, u16),
}

/// What a [`Config`] holds, as mathematical values.
pub struct ConfigView {
    /// Path of the split file to open at startup, if one is set.
    pub def_file: Option<Seq<char>>,
    /// Path of the background image, if one is set.
    pub img_file: Option<Seq<char>>,
    /// Whether the background image is scaled to the window, not cropped.
    pub img_scaled: bool,
    /// The six colors: ahead, behind, gaining, losing, gold, background.
    pub colors: Seq<(u8, u8, u8)>,
    /// Path of the font of the timer.
    pub t_font: Seq<char>,
    /// Path of the font of the rows of splits.
    pub s_font: Seq<char>,
    /// Sizes of the timer font and of the splits font.
    pub font_size: (u16, u16),
}

/// The view of an optional path.
pub open spec fn path_view(path: Option<String>) -> Option<Seq<char>> {
    match path {
        Some(p) => Some(p@),
        None => None,
    }
}

impl View for Config {
    type V = ConfigView;

    closed spec fn view(&self) -> ConfigView {
        ConfigView {
            def_file: path_view(self.def_file),
            img_file: path_view(self.img_file),
            img_scaled: self.img_scaled,
            colors: self.colors@,
            t_font: self.t_font@,
            s_font: self.s_font@,
            font_size: self.font_size,
        }
    }
}

impl Config {
    /// A configuration with the given contents.
    pub fn new(
        def_file: Option<String>,
        img_file: Option<String>,
        img_scaled: bool,
        colors: [(u8, u8, u8); 6],
        t_font: String,
        s_font: String,
        font_size: (u16, u16),
    ) -> (config: Config)
        ensures
            config@ == (ConfigView {
                def_file: path_view(def_file),
                img_file: path_view(img_file),
                img_scaled,
                colors: colors@,
                t_font: t_font@,
                s_font: s_font@,
                font_size,
            }),
    {
        Config { def_file, img_file, img_scaled, colors, t_font, s_font, font_size }
    }

    /// The split file to open at startup; `None` if no file is set.
    pub fn file(&self) -> (file: Option<&String>)
        ensures
            match file {
                Some(path) => self@.def_file == Some(path@),
                None => self@.def_file is None,
            },
    {
        self.def_file.as_ref()
    }

    /// The image to use as background of the timer; `None` if none is set.
    pub fn img(&self) -> (img: Option<&String>)
        ensures
            match img {
                Some(path) => self@.img_file == Some(path@),
                None => self@.img_file is None,
            },
    {
        self.img_file.as_ref()
    }

    /// Whether the image is scaled to fit the window (`true`) or cropped.
    pub fn img_scaled(&self) -> (scaled: bool)
        ensures
            scaled == self@.img_scaled,
    {
        self.img_scaled
    }

    /// Sets the split file to a copy of `file`.
    pub fn set_file(&mut self, file: &String)
        ensures
            final(self)@ == (ConfigView { def_file: Some(file@), ..old(self)@ }),
    {
        self.def_file = Some(file.clone());
    }

    /// Path of the font of the timer.
    pub fn tfont(&self) -> (path: &str)
        ensures
            path@ == self@.t_font,
    {
        self.t_font.as_str()
    }

    /// Path of the font of the rows of splits.
    pub fn sfont(&self) -> (path: &str)
        ensures
            path@ == self@.s_font,
    {
        self.s_font.as_str()
    }

    /// The sizes of the timer font and of the splits font, in this order.
    pub fn fsize(&self) -> (sizes: (u16, u16))
        ensures
            sizes == self@.font_size,
    {
        self.font_size
    }

    /// The six colors of the timer: ahead, behind, gaining, losing, gold,
    /// background.
    pub fn color_list(&self) -> (colors: [(u8, u8, u8); 6])
        ensures
            colors@ == self@.colors,
    {
        self.colors
    }
}

impl Default for Config {
    /// No split file, no background image, the stock colors and the stock
    /// font at sizes 60 and 25.
    fn default() -> (config: Config)
        ensures
            config@ == (ConfigView {
                def_file: None,
                img_file: None,
                img_scaled: false,
                colors: default_colors(),
                t_font: default_font(),
                s_font: default_font(),
                font_size: (60u16, 25u16),
            }),
    {
        let colors: [(u8, u8, u8); 6] = [
            (0, 255, 0),
            (255, 0, 0),
            (255, 90, 90),
            (135, 255, 125),
            (255, 255, 0),
            (0, 0, 0),
        ];
        assert(colors@ =~= default_colors());
        Config {
            def_file: None,
            img_file: None,
            img_scaled: false,
            colors,
            t_font: "assets/segoe-ui-bold.ttf".to_owned(),
            s_font: "assets/segoe-ui-bold.ttf".to_owned(),
            font_size: (60, 25),
        }
    }
}

} // verus!
