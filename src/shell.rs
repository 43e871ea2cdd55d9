//! What the desktop shell shows for each state: notification texts, tray
//! tooltips and the round tray icon.
use vstd::prelude::*;
use crate::state::AppState;

verus! {

/// The title of every notification.
pub const APP_NAME: &'static str = "VoiceDictator";

pub open spec fn notification_spec(old: AppState, new: AppState) -> Option<Seq<char>> {
    match new {
        AppState::Recording => Some("Recording started"@),
        AppState::Idle => if old == AppState::Pasting {
            Some("Text inserted"@)
        } else if old == AppState::Error {
            Some("Error dismissed"@)
        } else {
            Some("Processing cancelled"@)
        },
        AppState::Error => Some("An error occurred"@),
        _ => None,
    }
}

/// The notification (title and body) for a move from `old` to `new`; the
/// intermediate processing stages notify nothing.
pub fn notification_text(old: AppState, new: AppState) -> (r: Option<(&'static str, &'static str)>)
    ensures
        match notification_spec(old, new) {
            Some(body) => r matches Some(p) && p.0@ == APP_NAME@ && p.1@ == body,
            None => r is None,
        },
{
    match new {
        AppState::Recording => Some((APP_NAME, "Recording started")),
        AppState::Idle => {
            if old == AppState::Pasting {
                Some((APP_NAME, "Text inserted"))
            } else if old == AppState::Error {
                Some((APP_NAME, "Error dismissed"))
            } else {
                Some((APP_NAME, "Processing cancelled"))
            }
        },
        AppState::Error => Some((APP_NAME, "An error occurred")),
        _ => None,
    }
}

pub open spec fn state_name(state: AppState) -> Seq<char> {
    match state {
        AppState::Idle => "Idle"@,
        AppState::Recording => "Recording"@,
        AppState::Transcribing => "Transcribing"@,
        AppState::Enhancing => "Enhancing"@,
        AppState::Pasting => "Pasting"@,
        AppState::Error => "Error"@,
    }
}

/// The tray tooltip: the application name, a dash, and the state.
pub fn tooltip_for_state(state: AppState) -> (r: &'static str)
    ensures
        r@ == "VoiceDictator - "@ + state_name(state),
{
    proof {
        reveal_strlit("VoiceDictator - ");
        reveal_strlit("Idle");
        reveal_strlit("Recording");
        reveal_strlit("Transcribing");
        reveal_strlit("Enhancing");
        reveal_strlit("Pasting");
        reveal_strlit("Error");
        reveal_strlit("VoiceDictator - Idle");
        reveal_strlit("VoiceDictator - Recording");
        reveal_strlit("VoiceDictator - Transcribing");
        reveal_strlit("VoiceDictator - Enhancing");
        reveal_strlit("VoiceDictator - Pasting");
        reveal_strlit("VoiceDictator - Error");
    }
    let r = match state {
        AppState::Idle => "VoiceDictator - Idle",
        AppState::Recording => "VoiceDictator - Recording",
        AppState::Transcribing => "VoiceDictator - Transcribing",
        AppState::Enhancing => "VoiceDictator - Enhancing",
        AppState::Pasting => "VoiceDictator - Pasting",
        AppState::Error => "VoiceDictator - Error",
    };
    assert(r@ =~= "VoiceDictator - "@ + state_name(state));
    r
}

/// The side of the tray icon, in pixels.
pub const ICON_SIZE: usize = 32;

/// Twice the squared distance, in doubled coordinates, from the icon's
/// center to the center of pixel `(x, y)`: `(2x - 31)^2 + (2y - 31)^2`.
pub open spec fn doubled_dist_sq(x: int, y: int) -> int {
    (2 * x - 31) * (2 * x - 31) + (2 * y - 31) * (2 * y - 31)
}

/// The anti-aliased alpha of an edge pixel: the largest `a <= start` with
/// `2a <= 255 * (29 - sqrt(q))`, that is `65025 q <= (7395 - 2a)^2`.
pub open spec fn edge_alpha(q: int, start: int) -> int
    decreases start,
{
    if start <= 0 || 65025 * q <= (7395 - 2 * start) * (7395 - 2 * start) {
        if start <= 0 {
            0
        } else {
            start
        }
    } else {
        edge_alpha(q, start - 1)
    }
}

/// The RGBA of pixel `(x, y)` of a disc of radius 14 with a one-pixel
/// anti-aliased rim: opaque within 13.5 of the center, fading out by 14.5,
/// transparent beyond.
pub open spec fn pixel(r: u8, g: u8, b: u8, x: int, y: int) -> (u8, u8, u8, u8) {
    let q = doubled_dist_sq(x, y);
    if q <= 729 {
        (r, g, b, 255)
    } else if q <= 841 {
        (r, g, b, edge_alpha(q, 255) as u8)
    } else {
        (0, 0, 0, 0)
    }
}

proof fn lemma_edge_alpha_range(q: int, start: int)
    requires
        0 <= start <= 255,
    ensures
        0 <= edge_alpha(q, start) <= start,
    decreases start,
{
    if !(start <= 0 || 65025 * q <= (7395 - 2 * start) * (7395 - 2 * start)) {
        lemma_edge_alpha_range(q, start - 1);
    }
}

fn compute_edge_alpha(q: u64) -> (r: u8)
    requires
        q <= 841,
    ensures
        r as int == edge_alpha(q as int, 255),
{
    let mut a: u64 = 255;
    while a > 0
        invariant
            a <= 255,
            q <= 841,
            edge_alpha(q as int, 255) == edge_alpha(q as int, a as int),
        ensures
            a == 0 || 65025 * q <= (7395 - 2 * a) * (7395 - 2 * a),
            edge_alpha(q as int, 255) == edge_alpha(q as int, a as int),
        decreases a,
    {
        let d = 7395 - 2 * a;
        assert(d * d <= 7395 * 7395) by (nonlinear_arith)
            requires
                0 <= d <= 7395,
        ;
        if 65025 * q <= d * d {
            break;
        }
        a = a - 1;
    }
    proof {
        lemma_edge_alpha_range(q as int, a as int);
    }
    a as u8
}

/// The RGBA pixels of the round tray icon in color `(r, g, b)`, row by row.
pub fn generate_circle_rgba(r: u8, g: u8, b: u8) -> (out: Vec<u8>)
    ensures
        out@.len() == ICON_SIZE * ICON_SIZE * 4,
        forall|y: int, x: int|
            0 <= y < ICON_SIZE && 0 <= x < ICON_SIZE ==> {
                let p = #[trigger] pixel(r, g, b, x, y);
                let i = (y * ICON_SIZE + x) * 4;
                out@[i] == p.0 && out@[i + 1] == p.1 && out@[i + 2] == p.2 && out@[i + 3] == p.3
            },
{
    let mut out: Vec<u8> = Vec::new();
    let mut y: usize = 0;
    while y < ICON_SIZE
        invariant
            y <= ICON_SIZE,
            out@.len() == y * ICON_SIZE * 4,
            forall|yy: int, x: int|
                0 <= yy < y && 0 <= x < ICON_SIZE ==> {
                    let p = #[trigger] pixel(r, g, b, x, yy);
                    let i = (yy * ICON_SIZE + x) * 4;
                    out@[i] == p.0 && out@[i + 1] == p.1 && out@[i + 2] == p.2 && out@[i + 3]
                        == p.3
                },
        decreases ICON_SIZE - y,
    {
        let mut x: usize = 0;
        while x < ICON_SIZE
            invariant
                y < ICON_SIZE,
                x <= ICON_SIZE,
                out@.len() == (y * ICON_SIZE + x) * 4,
                forall|yy: int, xx: int|
                    (0 <= yy < y && 0 <= xx < ICON_SIZE) || (yy == y && 0 <= xx < x) ==> {
                        let p = #[trigger] pixel(r, g, b, xx, yy);
                        let i = (yy * ICON_SIZE + xx) * 4;
                        out@[i] == p.0 && out@[i + 1] == p.1 && out@[i + 2] == p.2 && out@[i
                            + 3] == p.3
                    },
            decreases ICON_SIZE - x,
        {
            let dx: i64 = 2 * (x as i64) - 31;
            let dy: i64 = 2 * (y as i64) - 31;
            assert(dx * dx <= 961 && dy * dy <= 961 && dx * dx >= 0 && dy * dy >= 0)
                by (nonlinear_arith)
                requires
                    -31 <= dx <= 31,
                    -31 <= dy <= 31,
            ;
            let q = (dx * dx + dy * dy) as u64;
            let ghost before = out@;
            let (pr, pg, pb, pa) = if q <= 729 {
                (r, g, b, 255u8)
            } else if q <= 841 {
                (r, g, b, compute_edge_alpha(q))
            } else {
                (0u8, 0u8, 0u8, 0u8)
            };
            assert(pixel(r, g, b, x as int, y as int) == (pr, pg, pb, pa));
            out.push(pr);
            out.push(pg);
            out.push(pb);
            out.push(pa);
            assert forall|yy: int, xx: int|
                (0 <= yy < y && 0 <= xx < ICON_SIZE) || (yy == y && 0 <= xx < x + 1) implies {
                    let p = #[trigger] pixel(r, g, b, xx, yy);
                    let i = (yy * ICON_SIZE + xx) * 4;
                    out@[i] == p.0 && out@[i + 1] == p.1 && out@[i + 2] == p.2 && out@[i + 3]
                        == p.3
                } by {
                let i = (yy * ICON_SIZE + xx) * 4;
                if yy < y || xx < x {
                    assert(yy * ICON_SIZE + xx < y * ICON_SIZE + x) by (nonlinear_arith)
                        requires
                            (0 <= yy < y && 0 <= xx < ICON_SIZE) || (yy == y && 0 <= xx < x),
                    ;
                    assert(out@[i] == before[i]);
                    assert(out@[i + 1] == before[i + 1]);
                    assert(out@[i + 2] == before[i + 2]);
                    assert(out@[i + 3] == before[i + 3]);
                }
            }
            x = x + 1;
        }
        y = y + 1;
    }
    out
}

} // verus!
