use vstd::prelude::*;

verus! {

/// A persisted record type whose copy can be proved equal to the original.
///
/// Every entity implements this so that snapshots (for transactions) and
/// query results (which hand out copies of rows) keep the exact value.
pub trait Dup: Sized {
    fn dup(&self) -> (r: Self)
        ensures
            r == *self,
    ;
}

/// A book row: primary key plus its scalar fields.
#[derive(Debug)]
pub struct Book {
    pub id: i64,
    pub title: String,
}

/// Write-only shape for inserting a book; the store assigns the key.
#[derive(Debug)]
pub struct NewBook {
    pub title: String,
}

/// A page row; `book_id` is the foreign key to its parent book.
#[derive(Debug)]
pub struct Page {
    pub id: i64,
    pub page_number: i64,
    pub content: String,
    pub book_id: i64,
}

/// Write-only shape for inserting a page under a given book.
#[derive(Debug)]
pub struct NewPage {
    pub page_number: i64,
    pub content: String,
}

/// A user row.
#[derive(Debug)]
pub struct User {
    pub id: i64,
    pub username: String,
    pub remark: String,
}

/// Write-only shape for inserting a user.
#[derive(Debug)]
pub struct NewUser {
    pub username: String,
    pub remark: String,
}

/// Partial field set for updating a user: only the listed fields mutate.
#[derive(Debug)]
pub struct UserChanges {
    pub username: Option<String>,
    pub remark: Option<String>,
}

/// An author row.
#[derive(Debug)]
pub struct Author {
    pub id: i64,
    pub name: String,
}

/// Write-only shape for inserting an author.
#[derive(Debug)]
pub struct NewAuthor {
    pub name: String,
}

/// Join row realizing the many-to-many relation between books and authors.
#[derive(Debug)]
pub struct BookAuthor {
    pub book_id: i64,
    pub author_id: i64,
}

impl Dup for Book {
    fn dup(&self) -> (r: Book)
        ensures
            r == *self,
    {
        Book { id: self.id, title: self.title.clone() }
    }
}

impl Dup for Page {
    fn dup(&self) -> (r: Page)
        ensures
            r == *self,
    {
        Page {
            id: self.id,
            page_number: self.page_number,
            content: self.content.clone(),
            book_id: self.book_id,
        }
    }
}

impl Dup for User {
    fn dup(&self) -> (r: User)
        ensures
            r == *self,
    {
        User { id: self.id, username: self.username.clone(), remark: self.remark.clone() }
    }
}

impl Dup for Author {
    fn dup(&self) -> (r: Author)
        ensures
            r == *self,
    {
        Author { id: self.id, name: self.name.clone() }
    }
}

impl Dup for BookAuthor {
    fn dup(&self) -> (r: BookAuthor)
        ensures
            r == *self,
    {
        BookAuthor { book_id: self.book_id, author_id: self.author_id }
    }
}

/// Copies a whole column of rows, value for value.
pub fn dup_vec<T: Dup>(v: &Vec<T>) -> (r: Vec<T>)
    ensures
        r@ == v@,
{
    let mut out: Vec<T> = Vec::new();
    let mut i: usize = 0;
    while i < v.len()
        invariant
            i <= v.len(),
            out@ == v@.subrange(0, i as int),
        decreases v.len() - i,
    {
        out.push(v[i].dup());
        i = i + 1;
        proof {
            assert(out@ =~= v@.subrange(0, i as int));
        }
    }
    proof {
        assert(out@ =~= v@);
    }
    out
}

/// Copies a column of rows in reverse order, for descending listings.
pub fn reverse_vec<T: Dup>(v: &Vec<T>) -> (r: Vec<T>)
    ensures
        r@ == v@.reverse(),
{
    let n = v.len();
    let mut out: Vec<T> = Vec::new();
    let mut k: usize = 0;
    while k < n
        invariant
            n == v.len(),
            k <= n,
            out@.len() == k,
            forall|j: int| 0 <= j < k ==> #[trigger] out@[j] == v@[n - 1 - j],
        decreases n - k,
    {
        out.push(v[n - 1 - k].dup());
        k = k + 1;
    }
    proof {
        assert(out@ =~= v@.reverse());
    }
    out
}

} // verus!
