//! Render requests: the theme catalog, the URL that asks the drawing
//! service for a board, and the name of the file its image is kept under.

use crate::board::random_fen_generation;
use crate::chance::{pick, thread_rng};
use crate::error::ErrorKind;
use vstd::prelude::*;
use vstd::string::StringExecFns;

verus! {

/// The named piece styles the drawing service offers.
pub const PIECE_THEME: [&'static str; 33] = [
    "neo",
    "game_room",
    "wood",
    "glass",
    "gothic",
    "classic",
    "metal",
    "bases",
    "neo_wood",
    "icy_sea",
    "club",
    "ocean",
    "newspaper",
    "space",
    "cases",
    "condal",
    "marble",
    "book",
    "alpha",
    "bubblegum",
    "dash",
    "graffiti",
    "light",
    "lolz",
    "luca",
    "maya",
    "modern",
    "nature",
    "neon",
    "sky",
    "tigers",
    "tournament",
    "vintage",
];

/// Address of the drawing service, up to the board encoding.
pub const RENDER_ENDPOINT: &'static str = "https://www.chess.com/dynboard?fen=";

/// Board colour asked for in every request.
pub const BOARD_COLOR: &'static str = "green";

/// Image size asked for in every request.
pub const BOARD_SIZE: &'static str = "3";

/// Whether `name` is in the theme catalog.
pub open spec fn is_theme(name: Seq<char>) -> bool {
    exists|i: int| 0 <= i < 33 && (#[trigger] PIECE_THEME[i])@ == name
}

/// The request URL for an encoding and a theme.
pub open spec fn render_url_text(encoding: Seq<char>, theme: Seq<char>) -> Seq<char> {
    RENDER_ENDPOINT@ + encoding + "&board="@ + BOARD_COLOR@ + "&piece="@ + theme + "&size="@
        + BOARD_SIZE@
}

/// The file name for a theme and an encoding.
pub open spec fn file_name_text(theme: Seq<char>, encoding: Seq<char>) -> Seq<char> {
    theme + seq!['-'] + underscored_text(encoding) + ".png"@
}

/// The path of that file below `directory`.
pub open spec fn output_path_text(
    directory: Seq<char>,
    theme: Seq<char>,
    encoding: Seq<char>,
) -> Seq<char> {
    directory + seq!['/'] + file_name_text(theme, encoding)
}

/// Replaces every `/` by `_`.
pub open spec fn underscored_text(text: Seq<char>) -> Seq<char> {
    text.map_values(|c: char| if c == '/' { '_' } else { c })
}

/// Copies `text` with every `/` replaced by `_`.
pub fn underscored(text: &str) -> (out: String)
    ensures
        out@ == underscored_text(text@),
{
    let mut out = String::new();
    for c in it: text.chars()
        invariant
            it.seq() == text@,
            out@ == underscored_text(text@.take(it.index() as int)),
    {
        out.push(if c == '/' { '_' } else { c });
    }
    out
}

/// Builds the URL that asks for `encoding` drawn in `theme`. The encoding
/// goes in as it is, spaces and slashes included.
pub fn render_url(encoding: &str, theme: &str) -> (url: String)
    ensures
        url@ == render_url_text(encoding@, theme@),
{
    let mut url = String::from_str(RENDER_ENDPOINT);
    url.append(encoding);
    url.append("&board=");
    url.append(BOARD_COLOR);
    url.append("&piece=");
    url.append(theme);
    url.append("&size=");
    url.append(BOARD_SIZE);
    url
}

/// Derives the name of the file that keeps the image of `encoding` drawn in
/// `theme`: only `/` is replaced, spaces stay.
pub fn file_name(theme: &str, encoding: &str) -> (name: String)
    ensures
        name@ == file_name_text(theme@, encoding@),
{
    let mut name = String::from_str(theme);
    name.push('-');
    let body = underscored(encoding);
    name.append(body.as_str());
    name.append(".png");
    name
}

/// Derives the path of that file below `directory`.
pub fn output_path(directory: &str, theme: &str, encoding: &str) -> (path: String)
    ensures
        path@ == output_path_text(directory@, theme@, encoding@),
{
    let mut path = String::from_str(directory);
    path.push('/');
    let name = file_name(theme, encoding);
    path.append(name.as_str());
    path
}

/// The theme a draw from the catalog gives, or the error for a catalog that
/// had nothing to draw from.
pub fn theme_of_pick(picked: Option<&&'static str>) -> (theme: Result<&'static str, ErrorKind>)
    ensures
        theme == match picked {
            Some(name) => Ok::<&'static str, ErrorKind>(*name),
            None => Err::<&'static str, ErrorKind>(ErrorKind::ThemeSelection),
        },
{
    match picked {
        Some(name) => Ok(*name),
        None => Err(ErrorKind::ThemeSelection),
    }
}

/// Draws a theme from the catalog, each with the same chance.
pub fn random_theme() -> (theme: Result<&'static str, ErrorKind>)
    ensures
        theme matches Ok(name) && is_theme(name@),
{
    let mut rng = thread_rng();
    let picked = pick(&PIECE_THEME, &mut rng);
    proof {
        if let Some(name) = picked {
            let i = choose|i: int| 0 <= i < PIECE_THEME@.len() && PIECE_THEME@[i] == *name;
            assert(PIECE_THEME[i]@ == name@);
        }
    }
    theme_of_pick(picked)
}

/// What one attempt asks the drawing service for.
pub struct RenderRequest {
    /// The style of the pieces.
    pub theme: &'static str,
    /// The board to draw.
    pub encoding: String,
}

impl RenderRequest {
    /// Draws a theme, once, and a board. The theme drawn here is the one
    /// that goes into both the URL and the file name.
    pub fn random() -> (request: Result<RenderRequest, ErrorKind>)
        ensures
            request matches Ok(r) && is_theme(r.theme@) && (exists|squares: Seq<Option<char>>|
                crate::board::valid_board(squares) && r.encoding@ == crate::board::board_text(
                    squares,
                )),
    {
        match random_theme() {
            Ok(theme) => Ok(RenderRequest { theme, encoding: random_fen_generation() }),
            Err(kind) => Err(kind),
        }
    }

    /// The URL of this request.
    pub fn url(&self) -> (url: String)
        ensures
            url@ == render_url_text(self.encoding@, self.theme@),
    {
        render_url(self.encoding.as_str(), self.theme)
    }

    /// The path of this request's image below `directory`.
    pub fn output_path(&self, directory: &str) -> (path: String)
        ensures
            path@ == output_path_text(directory@, self.theme@, self.encoding@),
    {
        output_path(directory, self.theme, self.encoding.as_str())
    }
}

} // verus!
