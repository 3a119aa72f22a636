//! The post record, reading one from a file's text, and the listing that
//! orders the posts of many files newest first.

use crate::date::Timestamp;
use crate::error::{BlogPostError, ErrorModel};
use crate::date::rfc3339_instant;
use crate::frontmatter::{
    body_text, frontmatter_outcome, header_block, lemma_complete_header, names_key, no_fields,
    parse_frontmatter, scan_lines, split_outcome, value_of,
};
use crate::highlight::SyntaxHighlightRegistry;
use crate::markdown::{markdown_html, render_markdown};
use vstd::prelude::*;
use vstd::seq_lib::*;
use vstd::string::*;

verus! {

/// A post: its metadata, its markdown body and the body rendered to HTML.
#[derive(Clone, Debug, PartialEq, Eq)]
pub struct BlogPost {
    pub slug: String,
    pub title: String,
    pub date: Timestamp,
    pub description: String,
    pub content: String,
    pub html_content: String,
}

/// `BlogPost` with its texts as character sequences.
pub struct PostModel {
    pub slug: Seq<char>,
    pub title: Seq<char>,
    pub date: Timestamp,
    pub description: Seq<char>,
    pub content: Seq<char>,
    pub html_content: Seq<char>,
}

impl View for BlogPost {
    type V = PostModel;

    open spec fn view(&self) -> PostModel {
        PostModel {
            slug: self.slug@,
            title: self.title@,
            date: self.date,
            description: self.description@,
            content: self.content@,
            html_content: self.html_content@,
        }
    }
}

/// The models of a sequence of posts.
pub open spec fn post_models(posts: Seq<BlogPost>) -> Seq<PostModel> {
    posts.map_values(|p: BlogPost| p@)
}

/// The post that a file's text gives, or why it gives none.
pub open spec fn post_outcome(text: Seq<char>) -> Result<PostModel, ErrorModel> {
    match frontmatter_outcome(text) {
        Err(e) => Err(e),
        Ok((meta, body)) => Ok(
            PostModel {
                slug: meta.slug,
                title: meta.title,
                date: meta.date,
                description: meta.description,
                content: body,
                html_content: markdown_html(body),
            },
        ),
    }
}

/// The post of one file of a listing: none for a file that could not be read
/// or whose text gives no post.
pub open spec fn listed_post(file: Result<String, BlogPostError>) -> Option<PostModel> {
    match file {
        Ok(text) => match post_outcome(text@) {
            Ok(post) => Some(post),
            Err(_) => None,
        },
        Err(_) => None,
    }
}

/// The posts of the files that give one, in the order of the files.
pub open spec fn listed_posts(files: Seq<Result<String, BlogPostError>>) -> Seq<PostModel>
    decreases files.len(),
{
    if files.len() == 0 {
        Seq::empty()
    } else {
        match listed_post(files.last()) {
            Some(post) => listed_posts(files.drop_last()).push(post),
            None => listed_posts(files.drop_last()),
        }
    }
}

/// How many of the files give a post.
pub open spec fn well_formed_count(files: Seq<Result<String, BlogPostError>>) -> nat
    decreases files.len(),
{
    if files.len() == 0 {
        0
    } else if listed_post(files.last()) is Some {
        well_formed_count(files.drop_last()) + 1
    } else {
        well_formed_count(files.drop_last())
    }
}

/// How many leading posts of `posts` a post dated `date` goes behind: all up
/// to the first one that it is later than.
pub open spec fn slot(posts: Seq<PostModel>, date: Timestamp) -> nat
    decreases posts.len(),
{
    if posts.len() == 0 || date.is_after(posts[0].date) {
        0
    } else {
        1 + slot(posts.drop_first(), date)
    }
}

/// `posts` with `post` put in at its slot.
pub open spec fn placed(posts: Seq<PostModel>, post: PostModel) -> Seq<PostModel> {
    posts.insert(slot(posts, post.date) as int, post)
}

/// `posts` put in order one by one, from the first to the last.
pub open spec fn ordered(posts: Seq<PostModel>) -> Seq<PostModel>
    decreases posts.len(),
{
    if posts.len() == 0 {
        Seq::empty()
    } else {
        placed(ordered(posts.drop_last()), posts.last())
    }
}

/// Whether no post of `posts` is later than one that stands before it.
pub open spec fn is_newest_first(posts: Seq<PostModel>) -> bool {
    forall|i: int, j: int|
        0 <= i < j < posts.len() ==> !(#[trigger] posts[j]).date.is_after((#[trigger] posts[i]).date)
}

/// The listing of a set of files.
pub open spec fn listing(files: Seq<Result<String, BlogPostError>>) -> Seq<PostModel> {
    ordered(listed_posts(files))
}

/// A post's slot lies within the sequence, behind posts that it is not later
/// than and before one that it is later than.
pub proof fn lemma_slot(posts: Seq<PostModel>, date: Timestamp)
    ensures
        slot(posts, date) <= posts.len(),
        forall|i: int| 0 <= i < slot(posts, date) ==> !date.is_after((#[trigger] posts[i]).date),
        slot(posts, date) < posts.len() ==> date.is_after(posts[slot(posts, date) as int].date),
    decreases posts.len(),
{
    if posts.len() > 0 && !date.is_after(posts[0].date) {
        let rest = posts.drop_first();
        lemma_slot(rest, date);
        assert forall|i: int| 0 <= i < slot(posts, date) implies !date.is_after(
            (#[trigger] posts[i]).date,
        ) by {
            if i > 0 {
                assert(posts[i] == rest[i - 1]);
            }
        }
    }
}

/// Putting a post into a newest-first sequence keeps it newest first and
/// adds exactly that post.
pub proof fn lemma_placed(posts: Seq<PostModel>, post: PostModel)
    requires
        is_newest_first(posts),
    ensures
        is_newest_first(placed(posts, post)),
        placed(posts, post).to_multiset() == posts.to_multiset().insert(post),
        placed(posts, post).len() == posts.len() + 1,
{
    lemma_slot(posts, post.date);
    to_multiset_insert(posts, slot(posts, post.date) as int, post);
}

/// Ordering a sequence of posts gives the same posts, each as often as
/// before, with none later than one that stands before it.
pub proof fn lemma_ordered(posts: Seq<PostModel>)
    ensures
        is_newest_first(ordered(posts)),
        ordered(posts).to_multiset() == posts.to_multiset(),
        ordered(posts).len() == posts.len(),
    decreases posts.len(),
{
    if posts.len() == 0 {
        assert(ordered(posts) =~= posts);
    } else {
        lemma_ordered(posts.drop_last());
        lemma_placed(ordered(posts.drop_last()), posts.last());
        to_multiset_build(posts.drop_last(), posts.last());
        assert(posts.drop_last().push(posts.last()) =~= posts);
    }
}

/// A file with two delimiters, a header whose dates all parse and all four
/// required keys gives a post: its metadata are the header's values, each
/// the trimmed value of the last line that names its key; its content is the
/// text after the second delimiter, without the header block; its HTML is
/// that text rendered.
pub proof fn lemma_post_of_complete_file(text: Seq<char>)
    requires
        split_outcome(text) is Some,
        scan_lines(header_block(text), no_fields()) is Ok,
        names_key(header_block(text), "title"@),
        names_key(header_block(text), "date"@),
        names_key(header_block(text), "description"@),
        names_key(header_block(text), "slug"@),
    ensures
        rfc3339_instant(value_of(header_block(text), "date"@)->0) is Ok,
        post_outcome(text) == Ok::<PostModel, ErrorModel>(
            PostModel {
                slug: value_of(header_block(text), "slug"@)->0,
                title: value_of(header_block(text), "title"@)->0,
                date: rfc3339_instant(value_of(header_block(text), "date"@)->0)->Ok_0,
                description: value_of(header_block(text), "description"@)->0,
                content: body_text(text),
                html_content: markdown_html(body_text(text)),
            },
        ),
{
    lemma_complete_header(header_block(text));
}

/// A listing holds the posts of the files that give one, each once and no
/// others: as many posts as there are such files, none later than one that
/// stands before it.
pub proof fn lemma_listing(files: Seq<Result<String, BlogPostError>>)
    ensures
        is_newest_first(listing(files)),
        listing(files).to_multiset() == listed_posts(files).to_multiset(),
        listing(files).len() == well_formed_count(files),
        well_formed_count(files) <= files.len(),
{
    lemma_ordered(listed_posts(files));
    lemma_listed_posts_len(files);
}

/// There is one listed post for each file that gives one.
pub proof fn lemma_listed_posts_len(files: Seq<Result<String, BlogPostError>>)
    ensures
        listed_posts(files).len() == well_formed_count(files),
        well_formed_count(files) <= files.len(),
    decreases files.len(),
{
    if files.len() > 0 {
        lemma_listed_posts_len(files.drop_last());
    }
}

/// Two listings of files with the same outcomes are the same, post for post
/// and field for field.
pub proof fn lemma_listing_repeats(
    files: Seq<Result<String, BlogPostError>>,
    first: Seq<PostModel>,
    second: Seq<PostModel>,
)
    requires
        first == listing(files),
        second == listing(files),
    ensures
        first == second,
        first.len() == second.len(),
        forall|i: int| 0 <= i < first.len() ==> first[i] == second[i],
{
}

/// Puts `post` into a listing at its slot: behind every post that it is not
/// later than from the front on, before the first that it is later than.
pub fn insert_by_date(posts: &mut Vec<BlogPost>, post: BlogPost)
    ensures
        post_models(final(posts)@) == placed(post_models(old(posts)@), post@),
        final(posts)@ == old(posts)@.insert(
            slot(post_models(old(posts)@), post.date) as int,
            post,
        ),
        final(posts)@.len() == old(posts)@.len() + 1,
{
    let n: usize = posts.len();
    let mut j: usize = 0;
    proof {
        assert(post_models(posts@).skip(0) =~= post_models(posts@));
    }
    while j < n && !post.date.after(&posts[j].date)
        invariant
            j <= n == posts.len(),
            posts@ == old(posts)@,
            slot(post_models(posts@), post.date) == j + slot(
                post_models(posts@).skip(j as int),
                post.date,
            ),
        decreases n - j,
    {
        proof {
            assert(post_models(posts@).skip(j as int).drop_first() =~= post_models(posts@).skip(
                j + 1,
            ));
        }
        j += 1;
    }
    posts.insert(j, post);
    proof {
        lemma_slot(post_models(old(posts)@), post.date);
    }
}

/// The place of the first post with the slug `slug`, if there is one.
pub fn find_by_slug(posts: &Vec<BlogPost>, slug: &str) -> (found: Option<usize>)
    ensures
        match found {
            Some(i) => i < posts@.len() && posts@[i as int].slug@ == slug@ && forall|j: int|
                0 <= j < i ==> (#[trigger] posts@[j]).slug@ != slug@,
            None => forall|j: int| 0 <= j < posts@.len() ==> (#[trigger] posts@[j]).slug@ != slug@,
        },
{
    let wanted = String::from_str(slug);
    let n: usize = posts.len();
    let mut i: usize = 0;
    while i < n
        invariant
            i <= n == posts.len(),
            wanted@ == slug@,
            forall|j: int| 0 <= j < i ==> (#[trigger] posts@[j]).slug@ != slug@,
        decreases n - i,
    {
        if posts[i].slug == wanted {
            return Some(i);
        }
        i += 1;
    }
    None
}

impl BlogPost {
    /// Reads a post from the text of its file. Succeeds exactly where the
    /// file holds two delimiters, every `date` line of its header is an
    /// RFC 3339 date and all four required keys are given; the post then
    /// holds the header's values trimmed, the text after the second delimiter
    /// as its content, and that text rendered as its HTML.
    pub fn from_file(registry: &SyntaxHighlightRegistry, text: &str) -> (r: Result<
        BlogPost,
        BlogPostError,
    >)
        ensures
            match r {
                Ok(post) => post_outcome(text@) == Ok::<PostModel, ErrorModel>(post@),
                Err(e) => post_outcome(text@) == Err::<PostModel, ErrorModel>(e@),
            },
    {
        match parse_frontmatter(text) {
            Err(e) => Err(e),
            Ok((meta, body)) => {
                let html = render_markdown(registry, body.as_str());
                Ok(
                    BlogPost {
                        slug: meta.slug,
                        title: meta.title,
                        date: meta.date,
                        description: meta.description,
                        content: body,
                        html_content: html,
                    },
                )
            },
        }
    }

    /// Lists the posts of a set of files, each given by the outcome of
    /// reading it. A file that could not be read, or whose text gives no
    /// post, is left out; the others come newest first, each put behind the
    /// posts before it that it is not later than.
    pub fn get_all_posts(
        registry: &SyntaxHighlightRegistry,
        files: &Vec<Result<String, BlogPostError>>,
    ) -> (posts: Vec<BlogPost>)
        ensures
            post_models(posts@) == listing(files@),
            is_newest_first(post_models(posts@)),
            post_models(posts@).to_multiset() == listed_posts(files@).to_multiset(),
            posts@.len() == well_formed_count(files@),
    {
        let mut posts: Vec<BlogPost> = Vec::new();
        let n: usize = files.len();
        let mut i: usize = 0;
        while i < n
            invariant
                i <= n == files.len(),
                post_models(posts@) == listing(files@.take(i as int)),
            decreases n - i,
        {
            proof {
                assert(files@.take(i + 1).drop_last() =~= files@.take(i as int));
            }
            let ghost earlier = listed_posts(files@.take(i as int));
            match &files[i] {
                Ok(text) => {
                    match BlogPost::from_file(registry, text.as_str()) {
                        Ok(post) => {
                            proof {
                                assert(earlier.push(post@).drop_last() =~= earlier);
                            }
                            insert_by_date(&mut posts, post);
                        },
                        Err(_) => {},
                    }
                },
                Err(_) => {},
            }
            i += 1;
        }
        proof {
            assert(files@.take(n as int) =~= files@);
            lemma_listing(files@);
        }
        posts
    }
}

} // verus!
