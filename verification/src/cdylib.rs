//! The streams that are open across the boundary of the plugin.
//!
//! The host holds a token for each; it cancels a stream by its token.
use vstd::prelude::*;

use std::collections::HashMap;

verus! {

broadcast use vstd::std_specs::hash::group_hash_axioms;

/// The open streams by their tokens.
pub struct StreamRegistry<T> {
    streams: HashMap<usize, T>,
    opened: usize,
}

/// What a [`StreamRegistry`] holds.
pub struct OpenStreams<T> {
    pub streams: Map<usize, T>,
    /// How many streams were opened, counted around the size of a word.
    pub opened: usize,
}

impl<T> View for StreamRegistry<T> {
    type V = OpenStreams<T>;

    closed spec fn view(&self) -> OpenStreams<T> {
        OpenStreams { streams: self.streams@, opened: self.opened }
    }
}

/// The token of the next stream.
pub open spec fn next_token(opened: usize) -> usize {
    if opened == usize::MAX {
        0
    } else {
        (opened + 1) as usize
    }
}

/// The streams once one more was opened.
pub open spec fn with_stream<T>(open: OpenStreams<T>, stream: T) -> OpenStreams<T> {
    let token = next_token(open.opened);
    OpenStreams { streams: open.streams.insert(token, stream), opened: token }
}

impl<T> StreamRegistry<T> {
    /// No open streams.
    pub fn new() -> (r: StreamRegistry<T>)
        ensures
            r@.streams == Map::<usize, T>::empty(),
            r@.opened == 0,
    {
        StreamRegistry { streams: HashMap::new(), opened: 0 }
    }

    /// Takes in an open stream, and returns its token.
    pub fn open(&mut self, stream: T) -> (r: usize)
        ensures
            r == next_token(old(self)@.opened),
            final(self)@ == with_stream(old(self)@, stream),
    {
        let token = self.opened.wrapping_add(1);
        self.opened = token;
        self.streams.insert(token, stream);
        token
    }

    /// Hands out the stream with the token, if it is still open: because it
    /// ended, or because it is to be cancelled.
    pub fn close(&mut self, token: usize) -> (r: Option<T>)
        ensures
            r == if old(self)@.streams.contains_key(token) {
                Some(old(self)@.streams[token])
            } else {
                None
            },
            final(self)@.streams == old(self)@.streams.remove(token),
            final(self)@.opened == old(self)@.opened,
    {
        self.streams.remove(&token)
    }
}

/// A token is not zero, which stands for no stream, as long as fewer streams
/// were opened than a word can count; and it is none of the tokens that were
/// given before.
pub proof fn law_tokens_are_fresh<T>(open: OpenStreams<T>, stream: T)
    requires
        open.opened < usize::MAX,
        forall|t: usize| #[trigger] open.streams.contains_key(t) ==> 0 < t <= open.opened,
    ensures
        next_token(open.opened) != 0,
        !open.streams.contains_key(next_token(open.opened)),
        forall|t: usize| #[trigger]
            with_stream(open, stream).streams.contains_key(t) ==> 0 < t <= with_stream(
                open,
                stream,
            ).opened,
{
}

/// A stream is closed once: its token finds it the first time and nothing the
/// next, and the other streams stay open.
pub proof fn law_a_stream_is_closed_once<T>(open: OpenStreams<T>, token: usize, other: usize)
    ensures
        !open.streams.remove(token).contains_key(token),
        other != token ==> (open.streams.remove(token).contains_key(other)
            == open.streams.contains_key(other)),
        other != token && open.streams.contains_key(other) ==> open.streams.remove(token)[other]
            == open.streams[other],
{
}

} // verus!
