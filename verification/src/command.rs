use vstd::prelude::*;
use vstd::string::StringSliceAdditionalSpecFns;

verus! {

/// Why rendering the external command line failed.
#[derive(Clone, Copy, Debug, PartialEq, Eq, Structural)]
pub enum RenderError {
    /// The template steps outside the supported surface: plain text plus flat
    /// `sids` / `xsids` sections whose bodies interpolate the current item.
    BadShape,
    /// The template engine itself refused the template or the bindings.
    Engine,
}

pub open spec fn open_sids_at(t: Seq<u8>, i: int) -> bool {
    &&& i + 9 <= t.len()
    &&& t[i] == 123 && t[i + 1] == 123 && t[i + 2] == 35 && t[i + 3] == 115 && t[i + 4] == 105
        && t[i + 5] == 100 && t[i + 6] == 115 && t[i + 7] == 125 && t[i + 8] == 125
}

pub open spec fn open_xsids_at(t: Seq<u8>, i: int) -> bool {
    &&& i + 10 <= t.len()
    &&& t[i] == 123 && t[i + 1] == 123 && t[i + 2] == 35 && t[i + 3] == 120 && t[i + 4] == 115
        && t[i + 5] == 105 && t[i + 6] == 100 && t[i + 7] == 115 && t[i + 8] == 125 && t[i + 9]
        == 125
}

pub open spec fn close_sids_at(t: Seq<u8>, i: int) -> bool {
    &&& i + 9 <= t.len()
    &&& t[i] == 123 && t[i + 1] == 123 && t[i + 2] == 47 && t[i + 3] == 115 && t[i + 4] == 105
        && t[i + 5] == 100 && t[i + 6] == 115 && t[i + 7] == 125 && t[i + 8] == 125
}

pub open spec fn close_xsids_at(t: Seq<u8>, i: int) -> bool {
    &&& i + 10 <= t.len()
    &&& t[i] == 123 && t[i + 1] == 123 && t[i + 2] == 47 && t[i + 3] == 120 && t[i + 4] == 115
        && t[i + 5] == 105 && t[i + 6] == 100 && t[i + 7] == 115 && t[i + 8] == 125 && t[i + 9]
        == 125
}

pub open spec fn dot_at(t: Seq<u8>, i: int) -> bool {
    &&& i + 5 <= t.len()
    &&& t[i] == 123 && t[i + 1] == 123 && t[i + 2] == 46 && t[i + 3] == 125 && t[i + 4] == 125
}

/// The supported template surface, scanned from position `i` with `sec`
/// recording the section we are inside (0 none, 1 `sids`, 2 `xsids`): every
/// tag is a flat section of `sids` or `xsids`, or the item tag inside one,
/// and every section is closed. Such a template never hands the engine an
/// array where it expects a printable value.
pub open spec fn shape_ok_from(t: Seq<u8>, i: int, sec: int) -> bool
    decreases t.len() - i,
{
    if i < 0 {
        false
    } else if i >= t.len() {
        sec == 0
    } else if i + 1 < t.len() && t[i] == 123 && t[i + 1] == 123 {
        if sec == 0 && open_sids_at(t, i) {
            shape_ok_from(t, i + 9, 1)
        } else if sec == 0 && open_xsids_at(t, i) {
            shape_ok_from(t, i + 10, 2)
        } else if sec == 1 && close_sids_at(t, i) {
            shape_ok_from(t, i + 9, 0)
        } else if sec == 2 && close_xsids_at(t, i) {
            shape_ok_from(t, i + 10, 0)
        } else if sec != 0 && dot_at(t, i) {
            shape_ok_from(t, i + 5, sec)
        } else {
            false
        }
    } else {
        shape_ok_from(t, i + 1, sec)
    }
}

pub open spec fn template_shape_ok(t: Seq<u8>) -> bool {
    shape_ok_from(t, 0, 0)
}

fn match_open_sids(t: &[u8], i: usize) -> (r: bool)
    ensures
        r == open_sids_at(t@, i as int),
{
    i < t.len() && t.len() - i >= 9 && t[i] == 123 && t[i + 1] == 123 && t[i + 2] == 35 && t[i + 3] == 115
        && t[i + 4] == 105 && t[i + 5] == 100 && t[i + 6] == 115 && t[i + 7] == 125 && t[i + 8]
        == 125
}

fn match_open_xsids(t: &[u8], i: usize) -> (r: bool)
    ensures
        r == open_xsids_at(t@, i as int),
{
    i < t.len() && t.len() - i >= 10 && t[i] == 123 && t[i + 1] == 123 && t[i + 2] == 35 && t[i + 3] == 120
        && t[i + 4] == 115 && t[i + 5] == 105 && t[i + 6] == 100 && t[i + 7] == 115 && t[i + 8]
        == 125 && t[i + 9] == 125
}

fn match_close_sids(t: &[u8], i: usize) -> (r: bool)
    ensures
        r == close_sids_at(t@, i as int),
{
    i < t.len() && t.len() - i >= 9 && t[i] == 123 && t[i + 1] == 123 && t[i + 2] == 47 && t[i + 3] == 115
        && t[i + 4] == 105 && t[i + 5] == 100 && t[i + 6] == 115 && t[i + 7] == 125 && t[i + 8]
        == 125
}

fn match_close_xsids(t: &[u8], i: usize) -> (r: bool)
    ensures
        r == close_xsids_at(t@, i as int),
{
    i < t.len() && t.len() - i >= 10 && t[i] == 123 && t[i + 1] == 123 && t[i + 2] == 47 && t[i + 3] == 120
        && t[i + 4] == 115 && t[i + 5] == 105 && t[i + 6] == 100 && t[i + 7] == 115 && t[i + 8]
        == 125 && t[i + 9] == 125
}

fn match_dot(t: &[u8], i: usize) -> (r: bool)
    ensures
        r == dot_at(t@, i as int),
{
    i < t.len() && t.len() - i >= 5 && t[i] == 123 && t[i + 1] == 123 && t[i + 2] == 46 && t[i + 3] == 125 && t[i
        + 4] == 125
}

/// Whether the template keeps to the supported surface; see `shape_ok_from`.
pub fn shape_check(t: &[u8]) -> (r: bool)
    ensures
        r == template_shape_ok(t@),
{
    let n = t.len();
    let mut i: usize = 0;
    let mut sec: u8 = 0;
    while i < n
        invariant
            i <= n,
            n == t.len(),
            sec <= 2,
            template_shape_ok(t@) == shape_ok_from(t@, i as int, sec as int),
        decreases n - i,
    {
        if i + 1 < n && t[i] == 123 && t[i + 1] == 123 {
            if sec == 0 && match_open_sids(t, i) {
                i += 9;
                sec = 1;
            } else if sec == 0 && match_open_xsids(t, i) {
                i += 10;
                sec = 2;
            } else if sec == 1 && match_close_sids(t, i) {
                i += 9;
                sec = 0;
            } else if sec == 2 && match_close_xsids(t, i) {
                i += 10;
                sec = 0;
            } else if sec != 0 && match_dot(t, i) {
                i += 5;
            } else {
                return false;
            }
        } else {
            i += 1;
        }
    }
    sec == 0
}

/// What the template engine prints for the given template and bindings: a
/// fixed function of its arguments, named here rather than restated; `None`
/// where the engine refuses them.
pub uninterp spec fn rendered_command(t: Seq<u8>, sids: Seq<u16>, xsids: Seq<u16>) -> Option<
    Seq<char>,
>;

/// Relies on mustache's `compile_str`, `MapBuilder::insert` and
/// `Template::render_data_to_string`: rendering is deterministic in the
/// template and the two bindings; on a template of the supported surface no
/// binding reaches a variable tag, so the engine returns instead of
/// panicking.
#[verifier::external_body]
fn render_with_mustache(template: &str, sids: &Vec<u16>, xsids: &Vec<u16>) -> (r: Result<
    String,
    RenderError,
>)
    requires
        template_shape_ok(template.spec_bytes()),
    ensures
        match r {
            Ok(s) => rendered_command(template.spec_bytes(), sids@, xsids@) == Some(s@),
            Err(e) => {
                &&& rendered_command(template.spec_bytes(), sids@, xsids@) is None
                &&& e == RenderError::Engine
            },
        },
{
    let rendered = mustache::compile_str(template).and_then(|t| {
        let data = mustache::MapBuilder::new()
            .insert("sids", sids)?
            .insert("xsids", xsids)?
            .build();
        t.render_data_to_string(&data)
    });
    match rendered {
        Ok(s) => Ok(s),
        Err(_) => Err(RenderError::Engine),
    }
}

/// Render the external command line from the configured template with the
/// channel's service ids bound to `sids` and its excluded service ids to
/// `xsids`. A template outside the supported surface is rejected before the
/// engine sees it.
pub fn render_command(template: &str, sids: &Vec<u16>, xsids: &Vec<u16>) -> (r: Result<
    String,
    RenderError,
>)
    ensures
        !template_shape_ok(template.spec_bytes()) ==> r == Err::<String, RenderError>(
            RenderError::BadShape,
        ),
        template_shape_ok(template.spec_bytes()) ==> match r {
            Ok(s) => rendered_command(template.spec_bytes(), sids@, xsids@) == Some(s@),
            Err(e) => {
                &&& rendered_command(template.spec_bytes(), sids@, xsids@) is None
                &&& e == RenderError::Engine
            },
        },
{
    let bytes = template.as_bytes();
    if !shape_check(bytes) {
        return Err(RenderError::BadShape);
    }
    render_with_mustache(template, sids, xsids)
}

} // verus!
