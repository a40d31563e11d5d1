//! Render settings, typesetting of layouts into scenes, and the contracts
//! of output backends.
pub mod auto;
pub mod svg;
pub mod webgpu;

use vstd::prelude::*;
use vstd::string::*;
use crate::error::Error;
use crate::font::FontUnit;
use crate::layout::{Layout, LayoutSettings, Style};
use crate::scene::{LayoutSceneBuilder, MathScene, SceneBuilder, SceneSettings, built_scene, buildable};

pub use crate::scene::Point as Cursor;

verus! {

/// Settings shared by the typesetter and the renderers.
#[derive(Clone, Debug)]
pub struct RenderSettings {
    pub font_size: u16,
    pub font_src: String,
    pub horz_padding: FontUnit,
    pub vert_padding: FontUnit,
    pub strict: bool,
    pub style: Style,
    pub debug: bool,
}

impl Default for RenderSettings {
    fn default() -> (s: RenderSettings)
        ensures
            s.font_size == 48,
            s.font_src@ == "http://rex.breeden.cc/rex-xits.otf"@,
            s.horz_padding == 250,
            s.vert_padding == 100,
            s.strict,
            s.style == Style::Display,
            !s.debug,
    {
        RenderSettings {
            font_size: 48,
            font_src: String::from_str("http://rex.breeden.cc/rex-xits.otf"),
            horz_padding: 250,
            vert_padding: 100,
            strict: true,
            style: Style::Display,
            debug: false,
        }
    }
}

/// The settings of scene construction that render settings select.
pub open spec fn scene_settings_of(s: RenderSettings) -> SceneSettings {
    SceneSettings { horizontal_padding: s.horz_padding, vertical_padding: s.vert_padding, debug: s.debug }
}

impl RenderSettings {
    /// The same settings with font size `size` in pixels.
    pub fn font_size(self, size: u16) -> (s: RenderSettings)
        ensures
            s == (RenderSettings { font_size: size, ..self }),
    {
        RenderSettings { font_size: size, ..self }
    }

    /// The same settings with the font loaded from `src`.
    pub fn font_src(self, src: &str) -> (s: RenderSettings)
        ensures
            s.font_src@ == src@,
            s.font_size == self.font_size,
            s.horz_padding == self.horz_padding,
            s.vert_padding == self.vert_padding,
            s.strict == self.strict,
            s.style == self.style,
            s.debug == self.debug,
    {
        RenderSettings { font_src: String::from_str(src), ..self }
    }

    /// The same settings with horizontal padding `size`.
    pub fn horz_padding(self, size: FontUnit) -> (s: RenderSettings)
        ensures
            s == (RenderSettings { horz_padding: size, ..self }),
    {
        RenderSettings { horz_padding: size, ..self }
    }

    /// The same settings with vertical padding `size`.
    pub fn vert_padding(self, size: FontUnit) -> (s: RenderSettings)
        ensures
            s == (RenderSettings { vert_padding: size, ..self }),
    {
        RenderSettings { vert_padding: size, ..self }
    }

    /// The same settings with math style `style`.
    pub fn style(self, style: Style) -> (s: RenderSettings)
        ensures
            s == (RenderSettings { style, ..self }),
    {
        RenderSettings { style, ..self }
    }

    /// The same settings with debug boxes on or off.
    pub fn debug(self, debug: bool) -> (s: RenderSettings)
        ensures
            s == (RenderSettings { debug, ..self }),
    {
        RenderSettings { debug, ..self }
    }

    /// What the layout engine takes from these settings.
    pub fn layout_settings(&self) -> (l: LayoutSettings)
        ensures
            l.font_size == self.font_size,
            l.style == self.style,
    {
        LayoutSettings { font_size: self.font_size, style: self.style }
    }

    /// What scene construction takes from these settings.
    pub fn scene_settings(&self) -> (s: SceneSettings)
        ensures
            s == scene_settings_of(*self),
    {
        SceneSettings {
            horizontal_padding: self.horz_padding,
            vertical_padding: self.vert_padding,
            debug: self.debug,
        }
    }
}

/// Turns layouts into scenes with the scene settings of its render settings.
#[derive(Copy, Clone)]
pub struct Typesetter<'a> {
    settings: &'a RenderSettings,
}

impl<'a> Typesetter<'a> {
    /// The render settings this typesetter uses.
    pub closed spec fn config(self) -> RenderSettings {
        *self.settings
    }

    /// The render settings this typesetter uses.
    pub fn settings(&self) -> (s: &RenderSettings)
        ensures
            *s == self.config(),
    {
        self.settings
    }

    pub fn new(settings: &'a RenderSettings) -> (t: Typesetter<'a>)
        ensures
            t.config() == *settings,
    {
        Typesetter { settings }
    }

    /// The scene of a layout, built with the padding and debug switch of
    /// the render settings.
    pub fn typeset(&self, layout: &Layout) -> (scene: MathScene)
        requires
            buildable(scene_settings_of(self.config()), *layout),
        ensures
            scene@ == built_scene(scene_settings_of(self.config()), *layout),
    {
        let builder = LayoutSceneBuilder::new(self.settings.scene_settings());
        builder.build(layout)
    }
}

/// An output backend that draws scenes.
pub trait SceneRenderer {
    type Out;

    /// Whether drawing `scene` may take the output from `before` to
    /// `after`, ending with `result`; each backend says what it draws.
    spec fn draws(&self, scene: MathScene, before: Self::Out, after: Self::Out, result: Result<(), Error>) -> bool;

    /// Draws `scene` into `out`.
    fn render_scene_to(&self, out: &mut Self::Out, scene: &MathScene) -> (r: Result<(), Error>)
        ensures
            self.draws(*scene, *old(out), *final(out), r),
    ;

    /// Draws `scene` into a fresh default output: the output that drawing
    /// makes of a default value when drawing succeeds, else its error.
    fn render_scene(&self, scene: &MathScene) -> (r: Result<Self::Out, Error>) where Self::Out: Default
        ensures
            r matches Ok(out) ==> exists|start: Self::Out|
                call_ensures(Self::Out::default, (), start) && #[trigger] self.draws(*scene, start, out, Ok(())),
            r matches Err(e) ==> exists|start: Self::Out, after: Self::Out|
                call_ensures(Self::Out::default, (), start) && #[trigger] self.draws(*scene, start, after, Err(e)),
    {
        let mut out = Self::Out::default();
        let ghost start = out;
        let drawn = self.render_scene_to(&mut out, scene);
        let ghost after = out;
        assert(self.draws(*scene, start, after, drawn));
        match drawn {
            Ok(unit) => {
                assert(drawn == Ok::<(), Error>(()));
                let res: Result<Self::Out, Error> = Ok(out);
                assert(res matches Ok(o) && o == after);
                res
            },
            Err(e) => {
                let res: Result<Self::Out, Error> = Err(e);
                assert(res matches Err(f) && f == e);
                res
            },
        }
    }
}

/// An output backend that also exposes the render settings it draws with.
pub trait Renderer: SceneRenderer {
    fn settings(&self) -> &RenderSettings;
}

} // verus!
