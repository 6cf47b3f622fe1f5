//! Posts: the owned resource of the API. Holds the post record, its store
//! operations, the handler-level create/update logic (validation, slug
//! generation, the ownership gate), and pagination.

use vstd::prelude::*;

use crate::authz::authorize_mutation;
use crate::errors::ErrorKind;
use crate::store::Store;
use crate::sys::{fresh_id, now_unix};
use vstd::std_specs::iter::IteratorSpec;

verus! {

/// A stored post. `user_id` is the owning identity's id; timestamps are unix
/// seconds, set by the store operations.
#[derive(Debug)]
pub struct Post {
    pub id: u128,
    pub title: String,
    pub slug: Option<String>,
    pub content: String,
    pub photo: String,
    pub user_id: u128,
    pub created_at: Option<u64>,
    pub updated_at: Option<u64>,
}

impl Post {
    /// An owned copy, equal to the original.
    pub fn duplicate(&self) -> (r: Post)
        ensures
            r == *self,
    {
        Post {
            id: self.id,
            title: self.title.clone(),
            slug: match &self.slug {
                Some(s) => Some(s.clone()),
                None => None,
            },
            content: self.content.clone(),
            photo: self.photo.clone(),
            user_id: self.user_id,
            created_at: self.created_at,
            updated_at: self.updated_at,
        }
    }
}

pub struct CreatePostSchema {
    pub title: String,
    pub content: String,
    pub photo: String,
}

pub struct UpdatePostSchema {
    pub id: u128,
    pub title: String,
    pub content: String,
    pub photo: String,
}

pub struct DeletePostSchema {
    pub id: u128,
}

pub struct GetPostsPaginatedSchema {
    pub page: Option<usize>,
    pub per_page: Option<usize>,
}

/// Whether the first creation instant is at or before the second (a missing
/// instant counts as earliest).
pub open spec fn created_le(a: Option<u64>, b: Option<u64>) -> bool {
    match a {
        None => true,
        Some(x) => match b {
            None => false,
            Some(y) => x <= y,
        },
    }
}

/// Whether the stored posts are in creation order: `created_at` nondecreasing
/// along the sequence. The surrounding store keeps this true because its
/// clock is monotone; the core states which operations preserve it.
pub open spec fn chronological(s: Seq<Post>) -> bool {
    forall|i: int, j: int|
        0 <= i < j < s.len() ==> created_le(#[trigger] s[i].created_at, #[trigger] s[j].created_at)
}

impl Store {
    /// Whether some stored post has this id.
    pub open spec fn has_post_id(&self, id: u128) -> bool {
        exists|i: int| 0 <= i < self.post_seq().len() && #[trigger] self.post_seq()[i].id == id
    }
}

/// The index of the stored post with this id (meaningful under the store's
/// uniqueness invariant when such a post exists).
pub open spec fn spec_post_index(s: Seq<Post>, id: u128) -> int {
    choose|i: int| 0 <= i < s.len() && s[i].id == id
}

proof fn lemma_post_index_unique(s: Seq<Post>, i: int)
    requires
        forall|a: int, b: int| 0 <= a < b < s.len() ==> #[trigger] s[a].id != #[trigger] s[b].id,
        0 <= i < s.len(),
    ensures
        spec_post_index(s, s[i].id) == i,
{
    let j = spec_post_index(s, s[i].id);
    assert(0 <= j < s.len() && s[j].id == s[i].id);
    if i < j {
        assert(s[i].id != s[j].id);
    } else if j < i {
        assert(s[j].id != s[i].id);
    }
}

proof fn lemma_post_update_wf(before: Seq<Post>, after: Seq<Post>, k: int)
    requires
        0 <= k < before.len(),
        after.len() == before.len(),
        forall|j: int| 0 <= j < before.len() && j != k ==> after[j] == before[j],
        after[k].id == before[k].id,
        forall|a: int, b: int|
            0 <= a < b < before.len() ==> #[trigger] before[a].id != #[trigger] before[b].id,
    ensures
        forall|a: int, b: int|
            0 <= a < b < after.len() ==> #[trigger] after[a].id != #[trigger] after[b].id,
{
    assert forall|a: int, b: int| 0 <= a < b < after.len() implies #[trigger] after[a].id
        != #[trigger] after[b].id by {
        assert(before[a].id != before[b].id);
    }
}

impl Post {
    /// Stores a new post exactly as given; the store refuses a duplicate id.
    pub fn insert(post: Post, store: &mut Store) -> (r: Result<Post, ErrorKind>)
        requires
            old(store).wf(),
        ensures
            final(store).wf(),
            final(store).user_seq() == old(store).user_seq(),
            match r {
                Ok(p) => !old(store).has_post_id(post.id) && p == post && final(store).post_seq()
                    == old(store).post_seq().push(post),
                Err(e) => e == ErrorKind::StoreFailure && old(store).has_post_id(post.id) && *final(store) == *old(store),
            },
            chronological(old(store).post_seq()) && (forall|i: int|
                0 <= i < old(store).post_seq().len() ==> created_le(
                    #[trigger] old(store).post_seq()[i].created_at,
                    post.created_at,
                )) ==> chronological(final(store).post_seq()),
    {
        let mut i: usize = 0;
        while i < store.posts.len()
            invariant
                *store == *old(store),
                old(store).wf(),
                i <= store.post_seq().len(),
                forall|j: int| 0 <= j < i ==> #[trigger] store.post_seq()[j].id != post.id,
            decreases store.post_seq().len() - i,
        {
            if store.posts[i].id == post.id {
                return Err(ErrorKind::StoreFailure);
            }
            i = i + 1;
        }
        let copy = post.duplicate();
        store.posts.push(post);
        proof {
            let s = store.post_seq();
            let n = old(store).post_seq().len() as int;
            assert forall|a: int, b: int| 0 <= a < b < s.len() implies #[trigger] s[a].id
                != #[trigger] s[b].id by {
                if b < n {
                    assert(old(store).post_seq()[a].id != old(store).post_seq()[b].id);
                } else {
                    assert(s[b] == post && s[a] == old(store).post_seq()[a]);
                    assert(old(store).post_seq()[a].id != post.id);
                }
            }
        }
        Ok(copy)
    }

    /// Fetches the post with this id; `NotFound` exactly when none has it.
    pub fn get_by_id(id: u128, store: &Store) -> (r: Result<Post, ErrorKind>)
        ensures
            match r {
                Ok(p) => exists|i: int|
                    0 <= i < store.post_seq().len() && #[trigger] store.post_seq()[i] == p
                        && p.id == id,
                Err(e) => e == ErrorKind::NotFound && !store.has_post_id(id),
            },
    {
        let mut i: usize = 0;
        while i < store.posts.len()
            invariant
                i <= store.post_seq().len(),
                forall|j: int| 0 <= j < i ==> #[trigger] store.post_seq()[j].id != id,
            decreases store.post_seq().len() - i,
        {
            if store.posts[i].id == id {
                return Ok(store.posts[i].duplicate());
            }
            i = i + 1;
        }
        Err(ErrorKind::NotFound)
    }

    /// Rewrites the post with `post.id`: the given fields are stored, the
    /// creation instant is kept, and the update instant becomes `now`.
    pub fn update(post: Post, store: &mut Store, now: u64) -> (r: Result<Post, ErrorKind>)
        requires
            old(store).wf(),
        ensures
            final(store).wf(),
            final(store).user_seq() == old(store).user_seq(),
            match r {
                Ok(p) => {
                    &&& exists|i: int|
                        0 <= i < old(store).post_seq().len() && #[trigger] old(store).post_seq()[i].id == post.id && final(store).post_seq() == old(store).post_seq().update(i, p) && p.created_at == old(store).post_seq()[i].created_at
                    &&& p.id == post.id && p.title == post.title && p.slug == post.slug
                        && p.content == post.content && p.photo == post.photo && p.user_id
                        == post.user_id && p.updated_at == Some(now)
                },
                Err(e) => e == ErrorKind::NotFound && !old(store).has_post_id(post.id) && *final(store) == *old(store),
            },
            chronological(old(store).post_seq()) ==> chronological(final(store).post_seq()),
    {
        let ghost orig = *store;
        let mut i: usize = 0;
        while i < store.posts.len()
            invariant
                *store == orig,
                orig == *old(store),
                orig.wf(),
                i <= store.post_seq().len(),
                forall|j: int| 0 <= j < i ==> #[trigger] store.post_seq()[j].id != post.id,
            decreases store.post_seq().len() - i,
        {
            if store.posts[i].id == post.id {
                let created = store.posts[i].created_at;
                let replaced = Post {
                    id: post.id,
                    title: post.title,
                    slug: post.slug,
                    content: post.content,
                    photo: post.photo,
                    user_id: post.user_id,
                    created_at: created,
                    updated_at: Some(now),
                };
                let copy = replaced.duplicate();
                store.posts[i] = replaced;
                proof {
                    lemma_post_update_wf(orig.post_seq(), store.post_seq(), i as int);
                }
                return Ok(copy);
            }
            i = i + 1;
        }
        Err(ErrorKind::NotFound)
    }

    /// Removes and returns the post with this id; `NotFound` exactly when
    /// none has it.
    pub fn delete(id: u128, store: &mut Store) -> (r: Result<Post, ErrorKind>)
        requires
            old(store).wf(),
        ensures
            final(store).wf(),
            final(store).user_seq() == old(store).user_seq(),
            match r {
                Ok(p) => exists|i: int|
                    0 <= i < old(store).post_seq().len() && #[trigger] old(store).post_seq()[i]
                        == p && p.id == id && final(store).post_seq() == old(store).post_seq().remove(i),
                Err(e) => e == ErrorKind::NotFound && !old(store).has_post_id(id) && *final(store)
                    == *old(store),
            },
            chronological(old(store).post_seq()) ==> chronological(final(store).post_seq()),
    {
        let ghost orig = *store;
        let mut i: usize = 0;
        while i < store.posts.len()
            invariant
                *store == orig,
                orig == *old(store),
                orig.wf(),
                i <= store.post_seq().len(),
                forall|j: int| 0 <= j < i ==> #[trigger] store.post_seq()[j].id != id,
            decreases store.post_seq().len() - i,
        {
            if store.posts[i].id == id {
                let removed = store.posts.remove(i);
                proof {
                    let after = store.post_seq();
                    let before = orig.post_seq();
                    assert forall|a: int, b: int| 0 <= a < b < after.len() implies #[trigger]
                    after[a].id != #[trigger] after[b].id by {
                        let a0: int = if a < i { a } else { a + 1 };
                        let b0: int = if b < i { b } else { b + 1 };
                        assert(after[a] == before[a0] && after[b] == before[b0]);
                        assert(before[a0].id != before[b0].id);
                    }
                }
                return Ok(removed);
            }
            i = i + 1;
        }
        Err(ErrorKind::NotFound)
    }

    /// Returns one page of posts, taken from the end of the stored sequence
    /// backwards; when the store is in creation order, the page is therefore
    /// sorted by `created_at` descending. Page numbering starts at 1.
    pub fn find_all(store: &Store, page: usize, per_page: usize) -> (r: Result<
        Vec<Post>,
        ErrorKind,
    >)
        requires
            page >= 1,
            page * per_page <= usize::MAX,
        ensures
            match r {
                Ok(v) => {
                    let m = store.post_seq().len();
                    let off = (page - 1) * per_page;
                    &&& v@.len() == (if off >= m {
                        0int
                    } else if m - off < per_page {
                        m - off
                    } else {
                        per_page as int
                    })
                    &&& forall|k: int|
                        0 <= k < v@.len() ==> #[trigger] v@[k] == store.post_seq()[m - 1 - off - k]
                    &&& chronological(store.post_seq()) ==> forall|a: int, b: int|
                        0 <= a < b < v@.len() ==> created_le(
                            #[trigger] v@[b].created_at,
                            #[trigger] v@[a].created_at,
                        )
                },
                Err(_) => false,
            },
    {
        proof {
            assert((page - 1) * per_page <= page * per_page) by (nonlinear_arith)
                requires
                    page >= 1,
            ;
        }
        let m = store.posts.len();
        let off = (page - 1) * per_page;
        let mut v: Vec<Post> = Vec::new();
        if off >= m {
            return Ok(v);
        }
        let mut k: usize = 0;
        while k < per_page && off + k < m
            invariant
                off < m,
                m == store.post_seq().len(),
                k <= per_page,
                off + k <= m,
                v@.len() == k,
                forall|t: int| 0 <= t < k ==> #[trigger] v@[t] == store.post_seq()[m - 1 - off - t],
            decreases per_page - k,
        {
            v.push(store.posts[m - 1 - off - k].duplicate());
            k = k + 1;
        }
        Ok(v)
    }
}

/// The owning identity of the post with this id, for the ownership check;
/// `NotFound` exactly when no stored post has the id.
pub fn get_owner(resource_id: u128, store: &Store) -> (r: Result<u128, ErrorKind>)
    ensures
        match r {
            Ok(owner) => exists|i: int|
                0 <= i < store.post_seq().len() && #[trigger] store.post_seq()[i].id
                    == resource_id && store.post_seq()[i].user_id == owner,
            Err(e) => e == ErrorKind::NotFound && !store.has_post_id(resource_id),
        },
{
    match Post::get_by_id(resource_id, store) {
        Ok(p) => Ok(p.user_id),
        Err(e) => Err(e),
    }
}

/// The defaults the listing endpoint applies: page 1, ten posts per page.
pub fn page_defaults(q: &GetPostsPaginatedSchema) -> (r: (usize, usize))
    ensures
        r.0 == (match q.page {
            Some(p) => p,
            None => 1usize,
        }),
        r.1 == (match q.per_page {
            Some(p) => p,
            None => 10usize,
        }),
{
    let page = match q.page {
        Some(p) => p,
        None => 1,
    };
    let per_page = match q.per_page {
        Some(p) => p,
        None => 10,
    };
    (page, per_page)
}

/// Blanks the owner id of every post in a listing, as the public listing
/// endpoint does before responding.
pub fn scrub_owners(posts: Vec<Post>) -> (r: Vec<Post>)
    ensures
        r@.len() == posts@.len(),
        forall|k: int|
            0 <= k < posts@.len() ==> #[trigger] r@[k] == (Post { user_id: 0, ..posts@[k] }),
{
    let mut r: Vec<Post> = Vec::new();
    let mut i: usize = 0;
    while i < posts.len()
        invariant
            i <= posts@.len(),
            r@.len() == i,
            forall|k: int| 0 <= k < i ==> #[trigger] r@[k] == (Post { user_id: 0, ..posts@[k] }),
        decreases posts@.len() - i,
    {
        let mut p = posts[i].duplicate();
        p.user_id = 0;
        r.push(p);
        i = i + 1;
    }
    r
}

/// What the post's title must be folded to: `str::to_lowercase` of it. The
/// result depends on the characters alone.
pub uninterp spec fn lower_of(s: Seq<char>) -> Seq<char>;

/// Relies on `str::to_lowercase`: a pure function of the characters alone,
/// named `lower_of` here.
#[verifier::external_body]
fn to_lowercase(s: &str) -> (r: String)
    ensures
        r@ == lower_of(s@),
{
    s.to_lowercase()
}

/// Relies on `String::push`: appends exactly the one character.
#[verifier::external_body]
fn push_char(s: &mut String, c: char)
    ensures
        final(s)@ == old(s)@ + seq![c],
{
    s.push(c);
}

/// The punctuation the slug drops.
pub open spec fn is_slug_dropped(c: char) -> bool {
    c == '?' || c == '!' || c == '.' || c == ',' || c == ':' || c == ';' || c == '(' || c == ')'
        || c == '[' || c == ']' || c == '{' || c == '}' || c == '*' || c == '&' || c == '@' || c
        == '#' || c == '$' || c == '%' || c == '^' || c == '+' || c == '=' || c == '`' || c == '~'
        || c == '<' || c == '>' || c == '/' || c == '|'
}

/// What one character contributes to a slug: spaces become hyphens, dropped
/// punctuation vanishes, everything else stays.
pub open spec fn slug_map(c: char) -> Seq<char> {
    if c == ' ' {
        seq!['-']
    } else if is_slug_dropped(c) {
        Seq::empty()
    } else {
        seq![c]
    }
}

/// The slug of a character sequence.
pub open spec fn slug_of(s: Seq<char>) -> Seq<char>
    decreases s.len(),
{
    if s.len() == 0 {
        Seq::empty()
    } else {
        slug_of(s.drop_last()) + slug_map(s.last())
    }
}

fn is_dropped_char(c: char) -> (r: bool)
    ensures
        r == is_slug_dropped(c),
{
    c == '?' || c == '!' || c == '.' || c == ',' || c == ':' || c == ';' || c == '(' || c == ')'
        || c == '[' || c == ']' || c == '{' || c == '}' || c == '*' || c == '&' || c == '@' || c
        == '#' || c == '$' || c == '%' || c == '^' || c == '+' || c == '=' || c == '`' || c == '~'
        || c == '<' || c == '>' || c == '/' || c == '|'
}

/// Applies the slug character mapping to an already-folded string.
pub fn slug_chars(s: &str) -> (r: String)
    ensures
        r@ == slug_of(s@),
{
    broadcast use vstd::string::axiom_spec_iter, vstd::string::next_postcondition;

    let mut it = s.chars();
    let mut r = String::new();
    let ghost mut k: int = 0;
    let mut done = false;
    while !done
        invariant
            0 <= k <= s@.len(),
            it.obeys_prophetic_iter_laws(),
            it.remaining() == s@.skip(k),
            r@ == slug_of(s@.subrange(0, k)),
            done ==> k == s@.len(),
        decreases s@.len() - k + (if done {
            0int
        } else {
            1int
        }),
    {
        match it.next() {
            Some(c) => {
                proof {
                    assert(s@.skip(k).len() > 0);
                    assert(s@.skip(k)[0] == s@[k]);
                    assert(s@.skip(k).drop_first() =~= s@.skip(k + 1));
                }
                if c == ' ' {
                    push_char(&mut r, '-');
                } else if is_dropped_char(c) {
                } else {
                    push_char(&mut r, c);
                }
                proof {
                    k = k + 1;
                    assert(s@.subrange(0, k).drop_last() =~= s@.subrange(0, k - 1));
                    assert(s@.subrange(0, k).last() == s@[k - 1]);
                }
            },
            None => {
                proof {
                    assert(s@.skip(k).len() == 0);
                }
                done = true;
            },
        }
    }
    proof {
        assert(s@.subrange(0, s@.len() as int) =~= s@);
    }
    r
}

/// Builds the URL slug of a title: the title lowercased, spaces turned to
/// hyphens, punctuation dropped.
pub fn create_slug(title: &str) -> (r: String)
    ensures
        r@ == slug_of(lower_of(title@)),
{
    let folded = to_lowercase(title);
    slug_chars(folded.as_str())
}

/// Whether a creation request carries all its required fields.
pub open spec fn valid_create_body(b: CreatePostSchema) -> bool {
    b.title@.len() > 0 && b.content@.len() > 0 && b.photo@.len() > 0
}

/// Whether an update request carries all its required fields and a real id.
pub open spec fn valid_update_body(b: UpdatePostSchema) -> bool {
    b.title@.len() > 0 && b.content@.len() > 0 && b.photo@.len() > 0 && b.id != 0
}

/// The creation handler's logic after a new id and the clock reading are
/// fixed: validates the body, builds the slug, and stores the post owned by
/// the requesting identity.
pub fn create_post_at(
    store: &mut Store,
    user_id: u128,
    body: CreatePostSchema,
    id: u128,
    now: u64,
) -> (r: Result<Post, ErrorKind>)
    requires
        old(store).wf(),
    ensures
        final(store).wf(),
        final(store).user_seq() == old(store).user_seq(),
        match r {
            Ok(p) => {
                &&& valid_create_body(body) && !old(store).has_post_id(id)
                &&& final(store).post_seq() == old(store).post_seq().push(p)
                &&& p.id == id && p.title == body.title && p.content == body.content && p.photo
                    == body.photo && p.user_id == user_id && p.created_at == Some(now)
                    && p.updated_at == Some(now)
                &&& p.slug matches Some(s) && s@ == slug_of(lower_of(body.title@))
            },
            Err(e) => *final(store) == *old(store) && (if !valid_create_body(body) {
                e == ErrorKind::Malformed
            } else {
                e == ErrorKind::StoreFailure && old(store).has_post_id(id)
            }),
        },
        chronological(old(store).post_seq()) && (forall|i: int|
            0 <= i < old(store).post_seq().len() ==> created_le(
                #[trigger] old(store).post_seq()[i].created_at,
                Some(now),
            )) ==> chronological(final(store).post_seq()),
{
    if body.title.as_str().is_empty() || body.content.as_str().is_empty()
        || body.photo.as_str().is_empty() {
        return Err(ErrorKind::Malformed);
    }
    let slug = create_slug(body.title.as_str());
    let post = Post {
        id,
        title: body.title,
        slug: Some(slug),
        content: body.content,
        photo: body.photo,
        user_id,
        created_at: Some(now),
        updated_at: Some(now),
    };
    Post::insert(post, store)
}

/// The update handler's logic: validates the body, requires the post to
/// exist, lets only its owner through, and stores the new fields with the
/// creation instant kept and the update instant set to `now`.
pub fn update_post_at(store: &mut Store, user_id: u128, body: UpdatePostSchema, now: u64) -> (r:
    Result<Post, ErrorKind>)
    requires
        old(store).wf(),
    ensures
        final(store).wf(),
        final(store).user_seq() == old(store).user_seq(),
        match r {
            Ok(p) => {
                let i = spec_post_index(old(store).post_seq(), body.id);
                &&& valid_update_body(body) && old(store).has_post_id(body.id)
                &&& old(store).post_seq()[i].user_id == user_id
                &&& final(store).post_seq() == old(store).post_seq().update(i, p)
                &&& p.id == body.id && p.title == body.title && p.content == body.content
                    && p.photo == body.photo && p.user_id == user_id && p.created_at == old(store).post_seq()[i].created_at && p.updated_at == Some(now) && p.slug == old(store).post_seq()[i].slug
            },
            Err(e) => *final(store) == *old(store) && (if !valid_update_body(body) {
                e == ErrorKind::Malformed
            } else if !old(store).has_post_id(body.id) {
                e == ErrorKind::NotFound
            } else {
                e == ErrorKind::Unauthorized && old(store).post_seq()[spec_post_index(
                    old(store).post_seq(),
                    body.id,
                )].user_id != user_id
            }),
        },
        chronological(old(store).post_seq()) ==> chronological(final(store).post_seq()),
{
    if body.title.as_str().is_empty() || body.content.as_str().is_empty()
        || body.photo.as_str().is_empty() || body.id == 0 {
        return Err(ErrorKind::Malformed);
    }
    let current = match Post::get_by_id(body.id, store) {
        Ok(p) => p,
        Err(_) => {
            return Err(ErrorKind::NotFound);
        },
    };
    proof {
        let w = choose|i: int|
            0 <= i < store.post_seq().len() && #[trigger] store.post_seq()[i] == current
                && current.id == body.id;
        lemma_post_index_unique(store.post_seq(), w);
    }
    if !authorize_mutation(user_id, current.user_id) {
        return Err(ErrorKind::Unauthorized);
    }
    let updated = Post {
        id: body.id,
        title: body.title,
        slug: current.slug,
        content: body.content,
        photo: body.photo,
        user_id,
        created_at: None,
        updated_at: None,
    };
    let r = Post::update(updated, store, now);
    proof {
        if r is Ok {
            let i = choose|i: int|
                0 <= i < old(store).post_seq().len() && #[trigger] old(store).post_seq()[i].id
                    == body.id && store.post_seq() == old(store).post_seq().update(
                    i,
                    r->Ok_0,
                ) && (r->Ok_0).created_at == old(store).post_seq()[i].created_at;
            lemma_post_index_unique(old(store).post_seq(), i);
        }
    }
    r
}

/// Creates a post for the authenticated identity, drawing the new id and
/// the clock reading inside; `create_post_at` carries the exact contract.
pub fn create_post(store: &mut Store, user_id: u128, body: CreatePostSchema) -> (r: Result<
    Post,
    ErrorKind,
>)
    requires
        old(store).wf(),
    ensures
        final(store).wf(),
        final(store).user_seq() == old(store).user_seq(),
        match r {
            Ok(p) => {
                &&& valid_create_body(body)
                &&& final(store).post_seq() == old(store).post_seq().push(p)
                &&& p.title == body.title && p.content == body.content && p.photo == body.photo
                    && p.user_id == user_id
                &&& p.slug matches Some(s) && s@ == slug_of(lower_of(body.title@))
            },
            Err(e) => *final(store) == *old(store) && (if !valid_create_body(body) {
                e == ErrorKind::Malformed
            } else {
                e == ErrorKind::StoreFailure
            }),
        },
        valid_create_body(body) && old(store).post_seq().len() == 0 ==> r is Ok,
{
    let id = fresh_id();
    let now = now_unix();
    create_post_at(store, user_id, body, id, now)
}

/// Updates a post for the authenticated identity at the current instant;
/// `update_post_at` carries the exact contract with the instant fixed.
pub fn update_post(store: &mut Store, user_id: u128, body: UpdatePostSchema) -> (r: Result<
    Post,
    ErrorKind,
>)
    requires
        old(store).wf(),
    ensures
        final(store).wf(),
        final(store).user_seq() == old(store).user_seq(),
        match r {
            Ok(p) => {
                let i = spec_post_index(old(store).post_seq(), body.id);
                &&& valid_update_body(body) && old(store).has_post_id(body.id)
                &&& old(store).post_seq()[i].user_id == user_id
                &&& final(store).post_seq() == old(store).post_seq().update(i, p)
                &&& p.id == body.id && p.title == body.title && p.content == body.content
                    && p.photo == body.photo && p.user_id == user_id && p.created_at == old(
                    store,
                ).post_seq()[i].created_at && p.updated_at is Some && p.slug == old(
                    store,
                ).post_seq()[i].slug
            },
            Err(e) => *final(store) == *old(store) && (if !valid_update_body(body) {
                e == ErrorKind::Malformed
            } else if !old(store).has_post_id(body.id) {
                e == ErrorKind::NotFound
            } else {
                e == ErrorKind::Unauthorized && old(store).post_seq()[spec_post_index(
                    old(store).post_seq(),
                    body.id,
                )].user_id != user_id
            }),
        },
{
    let now = now_unix();
    update_post_at(store, user_id, body, now)
}

} // verus!
