//! The title of the application's window.

use vstd::prelude::*;
use vstd::string::*;

verus! {

/// The title of the window: the application's name, and behind it, after a
/// dash, what is open in the window, if anything is.
pub open spec fn title_text(app_name: Seq<char>, ext: Option<Seq<char>>) -> Seq<char> {
    match ext {
        Some(ext) => app_name + " - "@ + ext,
        None => app_name,
    }
}

/// The text of what may be open in the window.
pub open spec fn ext_text(ext: Option<&str>) -> Option<Seq<char>> {
    match ext {
        Some(ext) => Some(ext@),
        None => None,
    }
}

/// Writes the title of the window.
pub fn window_title(app_name: &str, ext: Option<&str>) -> (title: String)
    ensures
        title@ == title_text(app_name@, ext_text(ext)),
{
    let mut title = String::from_str(app_name);
    match ext {
        Some(ext) => {
            title.append(" - ");
            title.append(ext);
        },
        None => {},
    }
    title
}

} // verus!
