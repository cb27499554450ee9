//! Where the feed of a site and the covers of its posts lie.

use crate::paths::{extension, join, path_extension, path_joined};
use crate::text::{
    chars_of, ends_with, has_suffix, remove_first, string_of, string_views, tail_from,
    without_first,
};
use vstd::prelude::*;
use vstd::string::StringExecFns;

verus! {

/// A directory with a separator at its end.
pub open spec fn as_directory(root_path: Seq<char>) -> Seq<char> {
    if has_suffix(root_path, seq!['/']) || has_suffix(root_path, seq!['\\']) {
        root_path
    } else {
        root_path + seq!['/']
    }
}

/// A text without the separator at its start, if it has one.
pub open spec fn without_leading_separator(s: Seq<char>) -> Seq<char> {
    if s.len() > 0 && s[0] == '/' {
        s.drop_first()
    } else {
        s
    }
}

/// The first cover of a post; the empty text for a post without covers.
pub open spec fn first_cover(covers: Seq<Seq<char>>) -> Seq<char> {
    if covers.len() > 0 {
        covers[0]
    } else {
        Seq::<char>::empty()
    }
}

/// Where the first cover of a post lies on the server: the cover's
/// permalink without the post's permalink in it, below the post's root.
pub open spec fn cover_path(root_path: Seq<char>, permalink: Seq<char>, covers: Seq<Seq<char>>)
    -> Seq<char> {
    path_joined(
        as_directory(root_path),
        without_leading_separator(without_first(first_cover(covers), permalink)),
    )
}

/// The media type of a cover: an image of the kind that the file's
/// extension names.
pub open spec fn cover_media_type(cover_path: Seq<char>) -> Seq<char> {
    "image/"@ + match path_extension(cover_path) {
        Some(e) => e,
        None => Seq::<char>::empty(),
    }
}

/// The permalink of the first cover of a post, and where that cover lies
/// on the server.
pub fn get_cover_permalink_and_path(root_path: &str, permalink: &str, covers: &Vec<String>) -> (r: (
    String,
    String,
))
    ensures
        r.0@ == first_cover(string_views(covers@)),
        r.1@ == cover_path(root_path@, permalink@, string_views(covers@)),
{
    let cover = if covers.len() > 0 {
        covers[0].clone()
    } else {
        String::new()
    };
    let mut root = chars_of(root_path);
    let mut slash: Vec<char> = Vec::new();
    slash.push('/');
    let mut backslash: Vec<char> = Vec::new();
    backslash.push('\\');
    proof {
        assert(slash@ =~= seq!['/']);
        assert(backslash@ =~= seq!['\\']);
    }
    if !(ends_with(&root, &slash) || ends_with(&root, &backslash)) {
        root.push('/');
    }
    let cover_chars = chars_of(cover.as_str());
    let permalink_chars = chars_of(permalink);
    let relative = remove_first(&cover_chars, &permalink_chars);
    let trimmed = if relative.len() > 0 && relative[0] == '/' {
        let t = tail_from(&relative, 1);
        assert(t@ =~= relative@.drop_first());
        t
    } else {
        relative
    };
    let root_text = string_of(&root);
    let rest_text = string_of(&trimmed);
    let path = join(root_text.as_str(), rest_text.as_str());
    (cover, path)
}

/// The media type of the cover at `cover_path`.
pub fn cover_mime(cover_path: &str) -> (mime: String)
    ensures
        mime@ == cover_media_type(cover_path@),
{
    let mut mime = "image/".to_owned();
    match extension(cover_path) {
        Some(e) => {
            mime.append(e.as_str());
        },
        None => {
            assert(mime@ + Seq::<char>::empty() =~= mime@);
        },
    }
    mime
}

/// Where the feed of the site is written: `rss.xml` in the root package's
/// output directory.
pub fn rss_output_path(root_path: &str, output_path: &str) -> (path: String)
    ensures
        path@ == path_joined(path_joined(root_path@, output_path@), "rss.xml"@),
{
    let dir = join(root_path, output_path);
    join(dir.as_str(), "rss.xml")
}

/// The copyright line of a feed.
pub fn feed_copyright(author_name: &str) -> (line: String)
    ensures
        line@ == "Copyright "@ + author_name@ + " All Rights Reserved"@,
{
    let mut line = "Copyright ".to_owned();
    line.append(author_name);
    line.append(" All Rights Reserved");
    line
}

} // verus!
