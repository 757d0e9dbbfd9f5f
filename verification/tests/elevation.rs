use debug_session::elevation::{BoxShadow, ElevationColors, ElevationIndex};
use debug_session::error::{ConfigurationError, LifecycleError, ProtocolError};

const ALL: [ElevationIndex; 5] = [
    ElevationIndex::Background,
    ElevationIndex::Surface,
    ElevationIndex::EditorSurface,
    ElevationIndex::ElevatedSurface,
    ElevationIndex::ModalSurface,
];

fn colors() -> ElevationColors<&'static str> {
    ElevationColors {
        background: "background",
        surface_background: "surface",
        editor_background: "editor",
        elevated_surface_background: "elevated",
    }
}

#[test]
fn elevation_names() {
    let names: Vec<String> = ALL.iter().map(|e| e.to_string()).collect();
    assert_eq!(
        names,
        vec!["Background", "Surface", "Editor Surface", "Elevated Surface", "Modal Surface"]
    );
}

#[test]
fn flat_layers_cast_no_shadow() {
    assert!(ElevationIndex::Background.shadow().is_empty());
    assert!(ElevationIndex::Surface.shadow().is_empty());
    assert!(ElevationIndex::EditorSurface.shadow().is_empty());
}

#[test]
fn raised_layers_cast_shadows() {
    let near = BoxShadow {
        opacity_hundredths: 12,
        offset_x: 0,
        offset_y: 2,
        blur_radius: 3,
        spread_radius: 0,
    };
    assert_eq!(ElevationIndex::ElevatedSurface.shadow().to_vec(), vec![near]);
    assert_eq!(ElevationIndex::ElevatedSurface.shadow().len(), 1);
    assert_eq!(ElevationIndex::ModalSurface.shadow().len(), 3);
    assert_eq!(
        ElevationIndex::ModalSurface.shadow().to_vec(),
        vec![
            near,
            BoxShadow {
                opacity_hundredths: 8,
                offset_x: 0,
                offset_y: 3,
                blur_radius: 6,
                spread_radius: 0
            },
            BoxShadow {
                opacity_hundredths: 4,
                offset_x: 0,
                offset_y: 6,
                blur_radius: 12,
                spread_radius: 0
            },
        ]
    );
}

#[test]
fn backgrounds_by_layer() {
    let c = colors();
    let bg: Vec<&str> = ALL.iter().map(|e| e.bg(&c)).collect();
    assert_eq!(bg, vec!["background", "surface", "editor", "elevated", "elevated"]);
    let on: Vec<&str> = ALL.iter().map(|e| e.on_elevation_bg(&c)).collect();
    assert_eq!(on, vec!["surface", "background", "surface", "background", "background"]);
    let darker: Vec<&str> = ALL.iter().map(|e| e.darker_bg(&c)).collect();
    assert_eq!(darker, vec!["surface", "editor", "surface", "editor", "editor"]);
}

#[test]
fn error_messages() {
    assert_eq!(ProtocolError::RequestFailed.message(), "request failed");
    assert_eq!(ProtocolError::MalformedResponse.message(), "malformed response");
    assert_eq!(ProtocolError::MissingStackFrame.message(), "missing stack frame");
    assert_eq!(ProtocolError::Incomplete.message(), "requests outstanding");
    assert_eq!(ProtocolError::LimitExceeded.message(), "limit exceeded");
    assert_eq!(ConfigurationError::UnknownFrame.message(), "unknown stack frame");
    assert_eq!(ConfigurationError::NoSource.message(), "no source to show");
    assert_eq!(LifecycleError::ExitTimedOut.message(), "adapter did not exit in time");
}
