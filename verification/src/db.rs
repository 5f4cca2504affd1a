//! The records that the reader keeps of books, highlights and chats.

use vstd::prelude::*;

verus! {

/// A book of the library.
#[derive(Debug, Clone)]
pub struct Book {
    pub id: i64,
    pub gutenberg_id: i64,
    pub title: String,
    pub authors: String,
    pub publication_year: Option<i32>,
    pub cover_url: Option<String>,
    pub mobi_path: Option<String>,
    pub html_path: Option<String>,
    pub first_image_index: Option<i32>,
    pub created_at: String,
}

/// Where the reader stopped in a book.
#[derive(Debug, Clone)]
pub struct BookPosition {
    pub cfi: String,
    pub updated_at: String,
}

/// A highlighted passage.
#[derive(Debug, Clone)]
pub struct Highlight {
    pub id: i64,
    pub book_id: i64,
    pub start_path: String,
    pub start_offset: i64,
    pub end_path: String,
    pub end_offset: i64,
    pub text: String,
    pub note: Option<String>,
    pub created_at: String,
    pub updated_at: String,
}

/// A message of the chat about a highlight.
#[derive(Debug, Clone)]
pub struct HighlightMessage {
    pub id: i64,
    pub highlight_id: i64,
    pub role: String,
    pub content: String,
    pub created_at: String,
}

/// A message of a chat about a book.
#[derive(Debug, Clone)]
pub struct BookMessage {
    pub id: i64,
    pub book_id: i64,
    pub thread_id: Option<i64>,
    pub role: String,
    pub content: String,
    pub reasoning_summary: Option<String>,
    pub context_map: Option<String>,
    pub created_at: String,
}

/// A thread of chat about a book.
#[derive(Debug, Clone)]
pub struct BookChatThread {
    pub id: i64,
    pub book_id: i64,
    pub title: String,
    pub last_cfi: Option<String>,
    pub created_at: String,
    pub updated_at: String,
}

} // verus!
