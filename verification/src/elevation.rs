//! Elevation: how close to the user an element of the interface lies, and
//! what shadow and background go with that.

use smallvec::SmallVec;
use vstd::prelude::*;

verus! {

/// The layers of the interface, from the farthest to the nearest.
#[derive(Debug, Clone, Copy, PartialEq, Eq, Structural)]
pub enum ElevationIndex {
    /// The app's background, under panels, panes and other surfaces.
    Background,
    /// The primary surface: panels, panes, containers.
    Surface,
    /// As high as the primary surface, for what can be edited.
    EditorSurface,
    /// Above the primary surface, below modals.
    ElevatedSurface,
    /// Dialogs, alerts, modals.
    ModalSurface,
}

/// A black shadow. Lengths are in pixels, the opacity in hundredths.
#[derive(Debug, Clone, Copy, PartialEq, Eq, Structural)]
pub struct BoxShadow {
    pub opacity_hundredths: u8,
    pub offset_x: u32,
    pub offset_y: u32,
    pub blur_radius: u32,
    pub spread_radius: u32,
}

/// The background colours of a theme that elevation chooses among.
#[derive(Debug, Clone, Copy)]
pub struct ElevationColors<C> {
    pub background: C,
    pub surface_background: C,
    pub editor_background: C,
    pub elevated_surface_background: C,
}

/// The shadows of a layer, the nearest first: a short list that lives on
/// the stack while it holds no more than two.
#[verifier::external_body]
pub struct ShadowList {
    shadows: SmallVec<[BoxShadow; 2]>,
}

/// The shadows that a list holds, in order.
pub uninterp spec fn shadows_in(list: ShadowList) -> Seq<BoxShadow>;

/// Makes the list with `SmallVec::from_vec`. Not proved: that the list
/// holds the items of the vector, in the vector's order.
#[verifier::external_body]
fn shadow_list(shadows: Vec<BoxShadow>) -> (list: ShadowList)
    ensures
        shadows_in(list) == shadows@,
{
    ShadowList { shadows: SmallVec::from_vec(shadows) }
}

/// Reads the list with `SmallVec::as_slice`. Not proved: that the slice
/// holds what the list holds, in order.
#[verifier::external_body]
fn listed_shadows(list: &ShadowList) -> (shadows: Vec<BoxShadow>)
    ensures
        shadows@ == shadows_in(*list),
{
    list.shadows.as_slice().to_vec()
}

impl ShadowList {
    /// The shadows of the list, the nearest first.
    pub fn to_vec(&self) -> (shadows: Vec<BoxShadow>)
        ensures
            shadows@ == shadows_in(*self),
    {
        listed_shadows(self)
    }

    /// How many shadows the list holds.
    pub fn len(&self) -> (count: usize)
        ensures
            count == shadows_in(*self).len(),
    {
        listed_shadows(self).len()
    }

    /// Whether the list holds no shadow.
    pub fn is_empty(&self) -> (empty: bool)
        ensures
            empty == (shadows_in(*self).len() == 0),
    {
        listed_shadows(self).len() == 0
    }
}

/// The shadow directly under an element.
pub open spec fn near_shadow() -> BoxShadow {
    BoxShadow {
        opacity_hundredths: 12,
        offset_x: 0,
        offset_y: 2,
        blur_radius: 3,
        spread_radius: 0,
    }
}

/// The shadows of a layer, the nearest first.
pub open spec fn shadows_of(index: ElevationIndex) -> Seq<BoxShadow> {
    match index {
        ElevationIndex::ElevatedSurface => seq![near_shadow()],
        ElevationIndex::ModalSurface => seq![
            near_shadow(),
            BoxShadow {
                opacity_hundredths: 8,
                offset_x: 0,
                offset_y: 3,
                blur_radius: 6,
                spread_radius: 0,
            },
            BoxShadow {
                opacity_hundredths: 4,
                offset_x: 0,
                offset_y: 6,
                blur_radius: 12,
                spread_radius: 0,
            },
        ],
        _ => Seq::empty(),
    }
}

impl ElevationIndex {
    /// The layer's name.
    pub fn to_string(&self) -> (name: String)
        ensures
            name@ == (match *self {
                ElevationIndex::Background => "Background"@,
                ElevationIndex::Surface => "Surface"@,
                ElevationIndex::EditorSurface => "Editor Surface"@,
                ElevationIndex::ElevatedSurface => "Elevated Surface"@,
                ElevationIndex::ModalSurface => "Modal Surface"@,
            }),
    {
        match self {
            ElevationIndex::Background => "Background".to_string(),
            ElevationIndex::Surface => "Surface".to_string(),
            ElevationIndex::EditorSurface => "Editor Surface".to_string(),
            ElevationIndex::ElevatedSurface => "Elevated Surface".to_string(),
            ElevationIndex::ModalSurface => "Modal Surface".to_string(),
        }
    }

    /// The shadows that suit the layer.
    pub fn shadow(self) -> (shadows: ShadowList)
        ensures
            shadows_in(shadows) == shadows_of(self),
    {
        let near = BoxShadow {
            opacity_hundredths: 12,
            offset_x: 0,
            offset_y: 2,
            blur_radius: 3,
            spread_radius: 0,
        };
        let mut shadows: Vec<BoxShadow> = Vec::new();
        match self {
            ElevationIndex::ElevatedSurface => {
                shadows.push(near);
            },
            ElevationIndex::ModalSurface => {
                shadows.push(near);
                shadows.push(
                    BoxShadow {
                        opacity_hundredths: 8,
                        offset_x: 0,
                        offset_y: 3,
                        blur_radius: 6,
                        spread_radius: 0,
                    },
                );
                shadows.push(
                    BoxShadow {
                        opacity_hundredths: 4,
                        offset_x: 0,
                        offset_y: 6,
                        blur_radius: 12,
                        spread_radius: 0,
                    },
                );
            },
            _ => {},
        }
        assert(shadows@ =~= shadows_of(self));
        shadow_list(shadows)
    }

    /// The background colour of the layer.
    pub fn bg<C: Copy>(&self, colors: &ElevationColors<C>) -> (color: C)
        ensures
            color == (match *self {
                ElevationIndex::Background => colors.background,
                ElevationIndex::Surface => colors.surface_background,
                ElevationIndex::EditorSurface => colors.editor_background,
                ElevationIndex::ElevatedSurface => colors.elevated_surface_background,
                ElevationIndex::ModalSurface => colors.elevated_surface_background,
            }),
    {
        match self {
            ElevationIndex::Background => colors.background,
            ElevationIndex::Surface => colors.surface_background,
            ElevationIndex::EditorSurface => colors.editor_background,
            ElevationIndex::ElevatedSurface => colors.elevated_surface_background,
            ElevationIndex::ModalSurface => colors.elevated_surface_background,
        }
    }

    /// A colour for a filled element that lies on the layer.
    pub fn on_elevation_bg<C: Copy>(&self, colors: &ElevationColors<C>) -> (color: C)
        ensures
            color == (match *self {
                ElevationIndex::Background => colors.surface_background,
                ElevationIndex::Surface => colors.background,
                ElevationIndex::EditorSurface => colors.surface_background,
                ElevationIndex::ElevatedSurface => colors.background,
                ElevationIndex::ModalSurface => colors.background,
            }),
    {
        match self {
            ElevationIndex::Background => colors.surface_background,
            ElevationIndex::Surface => colors.background,
            ElevationIndex::EditorSurface => colors.surface_background,
            ElevationIndex::ElevatedSurface => colors.background,
            ElevationIndex::ModalSurface => colors.background,
        }
    }

    /// A background to set the layer's own background off against.
    pub fn darker_bg<C: Copy>(&self, colors: &ElevationColors<C>) -> (color: C)
        ensures
            color == (match *self {
                ElevationIndex::Background => colors.surface_background,
                ElevationIndex::Surface => colors.editor_background,
                ElevationIndex::EditorSurface => colors.surface_background,
                ElevationIndex::ElevatedSurface => colors.editor_background,
                ElevationIndex::ModalSurface => colors.editor_background,
            }),
    {
        match self {
            ElevationIndex::Background => colors.surface_background,
            ElevationIndex::Surface => colors.editor_background,
            ElevationIndex::EditorSurface => colors.surface_background,
            ElevationIndex::ElevatedSurface => colors.editor_background,
            ElevationIndex::ModalSurface => colors.editor_background,
        }
    }
}

} // verus!
