//! Chat history that is kept on the device, for each server and channel.

use vstd::prelude::*;
use vstd::utf8;

use crate::digest;
use crate::digest::{hex_encode, sha256_digest};
use crate::protocol::push_bytes;
use crate::text;
use crate::text::{join2, trim};

verus! {

/// What a line of the history is.
#[derive(Debug, Clone, Copy, PartialEq, Eq, Structural)]
pub enum LineKind {
    Chat,
    Dm,
}

/// A line of the history.
#[derive(Debug)]
pub struct ChatLine {
    pub ts_unix: u64,
    pub kind: LineKind,
    pub from: String,
    pub text: String,
}

/// What a [`ChatLine`] says.
#[verifier::ext_equal]
pub struct ChatLineView {
    pub ts_unix: u64,
    pub kind: LineKind,
    pub from: Seq<char>,
    pub text: Seq<char>,
}

impl View for ChatLine {
    type V = ChatLineView;

    open spec fn view(&self) -> ChatLineView {
        ChatLineView { ts_unix: self.ts_unix, kind: self.kind, from: self.from@, text: self.text@ }
    }
}

/// The bytes whose digest tells the histories apart.
pub open spec fn history_bytes(server: Seq<char>, channel: Seq<char>) -> Seq<u8> {
    utf8::encode_utf8(server) + seq![124u8] + utf8::encode_utf8(channel)
}

/// The name of the file that holds a history.
pub open spec fn history_file(server: Seq<char>, channel: Seq<char>) -> Seq<char> {
    digest::short_fingerprint(history_bytes(server, channel)) + ".jsonl"@
}

/// The name of the file that holds the history of a channel.
pub fn file_name_for(server: &str, channel: &str) -> (name: String)
    ensures
        name@ == history_file(server@, channel@),
{
    let mut data: Vec<u8> = Vec::new();
    push_bytes(&mut data, server.as_bytes());
    data.push(124);
    push_bytes(&mut data, channel.as_bytes());
    assert(data@ =~= history_bytes(server@, channel@));
    let digest = sha256_digest(data.as_slice());
    let key = hex_encode(vstd::slice::slice_subrange(digest.as_slice(), 0, 8));
    join2(key.as_str(), ".jsonl")
}

/// How many lines are shown: the number that is asked for, or 50, but never
/// more than 500.
pub open spec fn shown_lines(limit: Option<usize>) -> int {
    match limit {
        Some(n) => if n <= 500 {
            n as int
        } else {
            500
        },
        None => 50,
    }
}

/// The last lines of a history.
pub open spec fn tail<T>(lines: Seq<T>, limit: Option<usize>) -> Seq<T> {
    if lines.len() <= shown_lines(limit) {
        lines
    } else {
        lines.subrange(lines.len() - shown_lines(limit), lines.len() as int)
    }
}

/// The last lines of a history.
pub fn last_lines<T>(lines: Vec<T>, limit: Option<usize>) -> (shown: Vec<T>)
    ensures
        shown@ == tail(lines@, limit),
{
    let limit: usize = match limit {
        Some(n) => if n <= 500 {
            n
        } else {
            500
        },
        None => 50,
    };
    let mut lines = lines;
    let skip: usize = lines.len().saturating_sub(limit);
    let shown = lines.split_off(skip);
    shown
}

/// Whether a line of the file holds nothing and is skipped.
pub fn is_blank(raw: &str) -> (r: bool)
    ensures
        r == (text::trimmed(raw@).len() == 0),
{
    let t = trim(raw);
    t.as_str().is_empty()
}

/// The shown lines are the newest ones, and no more than the limit.
pub proof fn law_tail_is_newest<T>(lines: Seq<T>, limit: Option<usize>, i: int)
    requires
        0 <= i < tail(lines, limit).len(),
    ensures
        tail(lines, limit).len() <= 500 || tail(lines, limit).len() == lines.len(),
        tail(lines, limit).len() <= shown_lines(limit) || lines.len() <= shown_lines(limit),
        tail(lines, limit)[tail(lines, limit).len() - 1 - i] == lines[lines.len() - 1 - i],
{
}

/// As many lines are shown as are there and are asked for; without a number
/// fifty, and never more than five hundred.
pub proof fn law_as_many_as_asked_for<T>(lines: Seq<T>, n: usize)
    ensures
        lines.len() >= n && n <= 500 ==> tail(lines, Some(n)).len() == n,
        lines.len() >= 500 && n >= 500 ==> tail(lines, Some(n)).len() == 500,
        lines.len() < n && lines.len() <= 500 ==> tail(lines, Some(n)) == lines,
        lines.len() >= 50 ==> tail(lines, None).len() == 50,
        lines.len() < 50 ==> tail(lines, None) == lines,
{
}

} // verus!
