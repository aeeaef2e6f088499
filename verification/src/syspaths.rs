use vstd::prelude::*;

use crate::models::AppError;

verus! {

/// One well-known OS location with its display label and icon name.
#[derive(Debug)]
pub struct SystemPath {
    pub label: String,
    pub path: String,
    pub icon: String,
}

/// Mathematical image of a [`SystemPath`].
pub ghost struct SystemPathV {
    pub label: Seq<char>,
    pub path: Seq<char>,
    pub icon: Seq<char>,
}

impl View for SystemPath {
    type V = SystemPathV;

    open spec fn view(&self) -> SystemPathV {
        SystemPathV { label: self.label@, path: self.path@, icon: self.icon@ }
    }
}

/// The images of a sequence of system paths.
pub open spec fn sys_views(s: Seq<SystemPath>) -> Seq<SystemPathV> {
    s.map_values(|p: SystemPath| p@)
}

/// The image of an optional location.
pub open spec fn opt_view(o: Option<String>) -> Option<Seq<char>> {
    match o {
        Option::Some(s) => Option::Some(s@),
        Option::None => Option::None,
    }
}

/// The entry one category contributes: present exactly when the OS
/// reports the location, under that category's fixed label and icon.
pub open spec fn opt_entry(p: Option<Seq<char>>, label: Seq<char>, icon: Seq<char>) -> Seq<
    SystemPathV,
> {
    match p {
        Option::Some(s) => seq![SystemPathV { label: label, path: s, icon: icon }],
        Option::None => Seq::empty(),
    }
}

/// The whole well-known list, in its fixed category order; a category
/// the OS does not report is simply omitted.
pub open spec fn system_paths_of(
    home: Option<Seq<char>>,
    desktop: Option<Seq<char>>,
    documents: Option<Seq<char>>,
    downloads: Option<Seq<char>>,
    pictures: Option<Seq<char>>,
    music: Option<Seq<char>>,
    videos: Option<Seq<char>>,
) -> Seq<SystemPathV> {
    opt_entry(home, "Home"@, "home"@) + opt_entry(desktop, "Desktop"@, "monitor"@) + opt_entry(
        documents,
        "Documents"@,
        "file-text"@,
    ) + opt_entry(downloads, "Downloads"@, "download"@) + opt_entry(
        pictures,
        "Pictures"@,
        "image"@,
    ) + opt_entry(music, "Music"@, "music"@) + opt_entry(videos, "Videos"@, "video"@)
}

/// Appends the entry of one category, if the OS reported it.
fn push_entry(out: &mut Vec<SystemPath>, loc: Option<String>, label: &str, icon: &str)
    ensures
        sys_views(final(out)@) == sys_views(old(out)@) + opt_entry(opt_view(loc), label@, icon@),
{
    match loc {
        Some(p) => {
            let entry = SystemPath { label: label.to_owned(), path: p, icon: icon.to_owned() };
            out.push(entry);
            proof {
                assert(sys_views(out@) =~= sys_views(old(out)@) + opt_entry(
                    opt_view(loc),
                    label@,
                    icon@,
                ));
            }
        },
        None => {
            proof {
                assert(sys_views(out@) =~= sys_views(old(out)@) + opt_entry(
                    opt_view(loc),
                    label@,
                    icon@,
                ));
            }
        },
    }
}

/// Assembles the well-known list from the locations the OS reported,
/// one optional path per category.
pub fn build_system_paths(
    home: Option<String>,
    desktop: Option<String>,
    documents: Option<String>,
    downloads: Option<String>,
    pictures: Option<String>,
    music: Option<String>,
    videos: Option<String>,
) -> (r: Vec<SystemPath>)
    ensures
        sys_views(r@) == system_paths_of(
            opt_view(home),
            opt_view(desktop),
            opt_view(documents),
            opt_view(downloads),
            opt_view(pictures),
            opt_view(music),
            opt_view(videos),
        ),
{
    let mut out: Vec<SystemPath> = Vec::new();
    proof {
        assert(sys_views(out@) =~= Seq::<SystemPathV>::empty());
    }
    push_entry(&mut out, home, "Home", "home");
    push_entry(&mut out, desktop, "Desktop", "monitor");
    push_entry(&mut out, documents, "Documents", "file-text");
    push_entry(&mut out, downloads, "Downloads", "download");
    push_entry(&mut out, pictures, "Pictures", "image");
    push_entry(&mut out, music, "Music", "music");
    push_entry(&mut out, videos, "Videos", "video");
    proof {
        assert(sys_views(out@) =~= system_paths_of(
            opt_view(home),
            opt_view(desktop),
            opt_view(documents),
            opt_view(downloads),
            opt_view(pictures),
            opt_view(music),
            opt_view(videos),
        ));
    }
    out
}

/// The well-known OS locations command: one entry per category the
/// OS reported, in the fixed order of `system_paths_of`.  The caller
/// performs the seven OS lookups (an external collaborator) and hands
/// the outcomes in; this decides the whole returned list.
pub fn get_system_paths(
    home: Option<String>,
    desktop: Option<String>,
    documents: Option<String>,
    downloads: Option<String>,
    pictures: Option<String>,
    music: Option<String>,
    videos: Option<String>,
) -> (r: Result<Vec<SystemPath>, AppError>)
    ensures
        r is Ok,
        sys_views(r->Ok_0@) == system_paths_of(
            opt_view(home),
            opt_view(desktop),
            opt_view(documents),
            opt_view(downloads),
            opt_view(pictures),
            opt_view(music),
            opt_view(videos),
        ),
{
    Ok(build_system_paths(home, desktop, documents, downloads, pictures, music, videos))
}

} // verus!
