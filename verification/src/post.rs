//! A post on its way through moderation. The stage is part of the type, so
//! a post can only take the steps that its stage allows.

use vstd::prelude::*;
use std::marker::PhantomData;

verus! {

/// Stage of a post that was written and not yet sent in.
#[derive(Debug, PartialEq)]
pub struct New;

/// Stage of a post that waits for a moderator.
#[derive(Debug, PartialEq)]
pub struct Unmoderated;

/// Stage of a post that a moderator let through.
#[derive(Debug, PartialEq)]
pub struct Published;

/// Stage of a post that was denied or taken down.
#[derive(Debug, PartialEq)]
pub struct Deleted;

#[derive(Debug)]
pub struct Post<State> {
    content: String,
    state: PhantomData<State>,
}

impl<State> View for Post<State> {
    type V = Seq<char>;

    /// The text of the post, which no step changes.
    closed spec fn view(&self) -> Seq<char> {
        self.content@
    }
}

impl Post<New> {
    pub fn new(content: &str) -> (post: Self)
        ensures
            post@ == content@,
    {
        Post { content: String::from_str(content), state: PhantomData }
    }

    pub fn publish(self) -> (post: Post<Unmoderated>)
        ensures
            post@ == self@,
    {
        Post { content: self.content, state: PhantomData }
    }
}

impl Post<Unmoderated> {
    pub fn allow(self) -> (post: Post<Published>)
        ensures
            post@ == self@,
    {
        Post { content: self.content, state: PhantomData }
    }

    pub fn deny(self) -> (post: Post<Deleted>)
        ensures
            post@ == self@,
    {
        Post { content: self.content, state: PhantomData }
    }
}

impl Post<Published> {
    pub fn content(&self) -> (text: &str)
        ensures
            text@ == self@,
    {
        self.content.as_str()
    }

    pub fn delete(self) -> (post: Post<Deleted>)
        ensures
            post@ == self@,
    {
        Post { content: self.content, state: PhantomData }
    }
}

impl Post<Deleted> {
    pub fn content(&self) -> (text: &str)
        ensures
            text@ == self@,
    {
        self.content.as_str()
    }
}

} // verus!
