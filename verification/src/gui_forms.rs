//! What the forms of the user interface offer, by what was chosen so far.

use vstd::prelude::*;

use crate::gui_plot::FlyPathOffer;

verus! {

/// How tiles that cannot be told apart in depth are merged.
#[derive(Clone, Copy, Debug, PartialEq, Eq, Structural)]
pub enum SelectiveMergeType {
    Off,
    Axis,
    Edge,
}

/// What the tiles are laid on.
#[derive(Clone, Copy, Debug, PartialEq, Eq, Structural)]
pub enum SurfaceType {
    Flat,
    HeightMap,
    Sphere,
}

/// Where the heights of a height map come from.
#[derive(Clone, Copy, Debug, PartialEq, Eq, Structural)]
pub enum HeightMapType {
    Texture,
    Random,
    SlopeX,
}

/// The choices in the configuration that other fields hang on.
#[derive(Clone, Copy, Debug, PartialEq, Eq, Structural)]
pub struct ConfigChoices {
    pub merge_type: SelectiveMergeType,
    pub use_cache: bool,
    pub lod_blending: bool,
    pub surface_type: SurfaceType,
    pub height_map_type: HeightMapType,
}

/// A field of the configuration.
#[derive(Clone, Copy, Debug, PartialEq, Eq, Structural)]
pub enum ConfigField {
    MapSize,
    CenterOption,
    UpdateDistance,
    TileWidth,
    TileSortType,
    MergeType,
    MergeDistance,
    MergeDotThreshold,
    MergeTopK,
    UseCache,
    CacheSize,
    LodMaxDistance,
    LodBlending,
    BlendingWidth,
    BboxCheck,
    BlendingTolerance,
    SurfaceType,
    HeightMapSize,
    HeightMapType,
    HeightTexture,
    HeightMapScale,
    SphereRadius,
    SkyboxTexture,
    ProxyTexture,
    Switches,
}

/// The fields for merging tiles.
pub open spec fn merge_fields(merge_type: SelectiveMergeType, use_cache: bool) -> Seq<ConfigField> {
    let details = match merge_type {
        SelectiveMergeType::Off => Seq::<ConfigField>::empty(),
        SelectiveMergeType::Axis => seq![ConfigField::MergeDistance],
        SelectiveMergeType::Edge => seq![ConfigField::MergeDotThreshold, ConfigField::MergeTopK],
    };
    let cache = if merge_type == SelectiveMergeType::Off {
        Seq::<ConfigField>::empty()
    } else if use_cache {
        seq![ConfigField::UseCache, ConfigField::CacheSize]
    } else {
        seq![ConfigField::UseCache]
    };
    seq![ConfigField::MergeType] + details + cache
}

/// The fields for levels of detail.
pub open spec fn lod_fields(blending: bool) -> Seq<ConfigField> {
    if blending {
        seq![
            ConfigField::LodMaxDistance,
            ConfigField::LodBlending,
            ConfigField::BlendingWidth,
            ConfigField::BboxCheck,
            ConfigField::BlendingTolerance,
        ]
    } else {
        seq![ConfigField::LodMaxDistance, ConfigField::LodBlending]
    }
}

/// The fields for the surface.
pub open spec fn surface_fields(surface: SurfaceType, heights: HeightMapType) -> Seq<ConfigField> {
    match surface {
        SurfaceType::Flat => seq![ConfigField::SurfaceType],
        SurfaceType::Sphere => seq![ConfigField::SurfaceType, ConfigField::SphereRadius],
        SurfaceType::HeightMap => if heights == HeightMapType::Texture {
            seq![
                ConfigField::SurfaceType,
                ConfigField::HeightMapSize,
                ConfigField::HeightMapType,
                ConfigField::HeightTexture,
                ConfigField::HeightMapScale,
            ]
        } else {
            seq![
                ConfigField::SurfaceType,
                ConfigField::HeightMapSize,
                ConfigField::HeightMapType,
                ConfigField::HeightMapScale,
            ]
        },
    }
}

/// All fields of the configuration, in the order in which they stand.
pub open spec fn fields_for(choices: ConfigChoices) -> Seq<ConfigField> {
    seq![
        ConfigField::MapSize,
        ConfigField::CenterOption,
        ConfigField::UpdateDistance,
        ConfigField::TileWidth,
        ConfigField::TileSortType,
    ] + merge_fields(choices.merge_type, choices.use_cache) + lod_fields(choices.lod_blending)
        + surface_fields(choices.surface_type, choices.height_map_type) + seq![
        ConfigField::SkyboxTexture,
        ConfigField::ProxyTexture,
        ConfigField::Switches,
    ]
}

/// Lists the fields of the configuration.
pub fn config_fields(choices: ConfigChoices) -> (r: Vec<ConfigField>)
    ensures
        r@ == fields_for(choices),
{
    let mut r: Vec<ConfigField> = Vec::new();
    r.push(ConfigField::MapSize);
    r.push(ConfigField::CenterOption);
    r.push(ConfigField::UpdateDistance);
    r.push(ConfigField::TileWidth);
    r.push(ConfigField::TileSortType);
    r.push(ConfigField::MergeType);
    match choices.merge_type {
        SelectiveMergeType::Off => {},
        SelectiveMergeType::Axis => {
            r.push(ConfigField::MergeDistance);
        },
        SelectiveMergeType::Edge => {
            r.push(ConfigField::MergeDotThreshold);
            r.push(ConfigField::MergeTopK);
        },
    }
    if choices.merge_type != SelectiveMergeType::Off {
        r.push(ConfigField::UseCache);
        if choices.use_cache {
            r.push(ConfigField::CacheSize);
        }
    }
    r.push(ConfigField::LodMaxDistance);
    r.push(ConfigField::LodBlending);
    if choices.lod_blending {
        r.push(ConfigField::BlendingWidth);
        r.push(ConfigField::BboxCheck);
        r.push(ConfigField::BlendingTolerance);
    }
    r.push(ConfigField::SurfaceType);
    match choices.surface_type {
        SurfaceType::Flat => {},
        SurfaceType::Sphere => {
            r.push(ConfigField::SphereRadius);
        },
        SurfaceType::HeightMap => {
            r.push(ConfigField::HeightMapSize);
            r.push(ConfigField::HeightMapType);
            if choices.height_map_type == HeightMapType::Texture {
                r.push(ConfigField::HeightTexture);
            }
            r.push(ConfigField::HeightMapScale);
        },
    }
    r.push(ConfigField::SkyboxTexture);
    r.push(ConfigField::ProxyTexture);
    r.push(ConfigField::Switches);
    assert(r@ =~= fields_for(choices));
    r
}

/// What the menu of a running scene hangs on.
#[derive(Clone, Copy, Debug, PartialEq, Eq, Structural)]
pub struct MenuState {
    pub draw_point_cloud: bool,
    pub has_motion: bool,
    pub use_skybox: bool,
    pub use_proxy: bool,
    pub use_clip: bool,
}

/// A part of the menu that is not always there.
#[derive(Clone, Copy, Debug, PartialEq, Eq, Structural)]
pub enum MenuPart {
    PointCloudRadius,
    Dynamics,
    Skybox,
    Proxy,
    ClipHeight,
}

/// A part if it is there.
pub open spec fn part_if(there: bool, part: MenuPart) -> Seq<MenuPart> {
    if there {
        seq![part]
    } else {
        Seq::empty()
    }
}

/// Lists the parts that the menu has, in the order in which they stand.
pub fn menu_parts(state: MenuState) -> (r: Vec<MenuPart>)
    ensures
        r@ == part_if(state.draw_point_cloud, MenuPart::PointCloudRadius) + part_if(
            state.has_motion,
            MenuPart::Dynamics,
        ) + part_if(state.use_skybox, MenuPart::Skybox) + part_if(state.use_proxy, MenuPart::Proxy)
            + part_if(state.use_clip, MenuPart::ClipHeight),
{
    let mut r: Vec<MenuPart> = Vec::new();
    if state.draw_point_cloud {
        r.push(MenuPart::PointCloudRadius);
    }
    if state.has_motion {
        r.push(MenuPart::Dynamics);
    }
    if state.use_skybox {
        r.push(MenuPart::Skybox);
    }
    if state.use_proxy {
        r.push(MenuPart::Proxy);
    }
    if state.use_clip {
        r.push(MenuPart::ClipHeight);
    }
    r
}

/// Which windows are open, and whether a camera path is being measured.
#[derive(Clone, Copy, Debug, PartialEq, Eq, Structural)]
pub struct FlyPathMenus {
    pub show_fly_path: bool,
    pub show_main: bool,
    pub benchmark: bool,
}

/// What happens to a camera path.
#[derive(Clone, Copy, Debug, PartialEq, Eq, Structural)]
pub enum FlyPathStep {
    Nothing,
    /// The path starts, and measurements start over.
    Start,
    Pause,
    /// The measurements are reported and start over.
    Report,
}

/// What follows from an offer that was taken up. To start a path opens a measurement, and closes
/// the menus if they are to be hidden; the end of a measured path closes the measurement without
/// being asked.
pub fn follow_fly_path(
    offer: FlyPathOffer,
    clicked: bool,
    hide_menus: bool,
    menus: FlyPathMenus,
) -> (r: (FlyPathStep, FlyPathMenus))
    ensures
        r == match offer {
            FlyPathOffer::Start if clicked => (
                FlyPathStep::Start,
                FlyPathMenus {
                    show_fly_path: menus.show_fly_path && !hide_menus,
                    show_main: menus.show_main && !hide_menus,
                    benchmark: true,
                },
            ),
            FlyPathOffer::Pause if clicked => (FlyPathStep::Pause, menus),
            FlyPathOffer::EndBenchmark => (
                FlyPathStep::Report,
                FlyPathMenus { benchmark: false, ..menus },
            ),
            _ => (FlyPathStep::Nothing, menus),
        },
{
    match offer {
        FlyPathOffer::Start => {
            if clicked {
                (
                    FlyPathStep::Start,
                    FlyPathMenus {
                        show_fly_path: menus.show_fly_path && !hide_menus,
                        show_main: menus.show_main && !hide_menus,
                        benchmark: true,
                    },
                )
            } else {
                (FlyPathStep::Nothing, menus)
            }
        },
        FlyPathOffer::Pause => {
            if clicked {
                (FlyPathStep::Pause, menus)
            } else {
                (FlyPathStep::Nothing, menus)
            }
        },
        FlyPathOffer::EndBenchmark => {
            (
                FlyPathStep::Report,
                FlyPathMenus {
                    show_fly_path: menus.show_fly_path,
                    show_main: menus.show_main,
                    benchmark: false,
                },
            )
        },
        _ => (FlyPathStep::Nothing, menus),
    }
}

} // verus!
