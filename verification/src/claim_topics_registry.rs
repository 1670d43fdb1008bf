//! The claim topics registry: the claim topics a token holder's identity
//! must carry.
use vstd::prelude::*;
use crate::common::{StdFailure, StdFailureView, Response, Ctx, text};

verus! {

/// The most topics that can be required.
pub const MAX_CLAIM_TOPICS: usize = 15;

/// Errors of the claim topics registry.
#[derive(Debug)]
pub enum TopicsError {
    Std(StdFailure),
    Unauthorized,
    TopicAlreadyExists { topic: u32 },
    TopicNotFound { topic: u32 },
    TooManyTopics { max: usize },
}

pub enum TopicsErr {
    Std(StdFailureView),
    Unauthorized,
    TopicAlreadyExists { topic: u32 },
    TopicNotFound { topic: u32 },
    TooManyTopics { max: usize },
}

impl View for TopicsError {
    type V = TopicsErr;

    open spec fn view(&self) -> TopicsErr {
        match self {
            TopicsError::Std(e) => TopicsErr::Std(e@),
            TopicsError::Unauthorized => TopicsErr::Unauthorized,
            TopicsError::TopicAlreadyExists { topic } => TopicsErr::TopicAlreadyExists { topic: *topic },
            TopicsError::TopicNotFound { topic } => TopicsErr::TopicNotFound { topic: *topic },
            TopicsError::TooManyTopics { max } => TopicsErr::TooManyTopics { max: *max },
        }
    }
}

/// The registry sends no messages.
pub type TopicsResponse = Response<()>;

#[derive(Debug, PartialEq)]
pub struct RequiredTopicsResponse {
    pub topics: Vec<u32>,
}

#[derive(Debug, PartialEq)]
pub struct OwnerResponse {
    pub owner: String,
}

/// The registry's state. The owner is kept as given, unchecked.
pub struct TopicsState {
    pub owner: String,
    pub required_topics: Vec<u32>,
}

pub open spec fn plain(resp: TopicsResponse, attrs: Seq<(Seq<char>, Seq<char>)>) -> bool {
    &&& resp.messages@.len() == 0
    &&& resp.evts().len() == 0
    &&& resp.attrs() == attrs
}

fn copy_topics(v: &Vec<u32>) -> (r: Vec<u32>)
    ensures
        r@ == v@,
{
    let mut out: Vec<u32> = Vec::new();
    let mut i: usize = 0;
    while i < v.len()
        invariant
            i <= v@.len(),
            out@ == v@.take(i as int),
        decreases v@.len() - i,
    {
        out.push(v[i]);
        assert(out@ =~= v@.take(i + 1));
        i = i + 1;
    }
    assert(v@.take(v@.len() as int) =~= v@);
    out
}

impl TopicsState {
    /// Sets up the registry with `owner` and the initial topics; at most
    /// `MAX_CLAIM_TOPICS` of them, as for every later change.
    pub fn instantiate(ctx: &Ctx, owner: String, required_topics: Vec<u32>) -> (r: Result<
        (TopicsState, TopicsResponse),
        TopicsError,
    >)
        ensures
            match r {
                Ok((s, resp)) => required_topics@.len() <= MAX_CLAIM_TOPICS && s.owner@ == owner@
                    && s.required_topics@ == required_topics@ && plain(
                    resp,
                    seq![("method"@, "instantiate"@), ("owner"@, ctx.sender.text@)],
                ),
                Err(e) => required_topics@.len() > MAX_CLAIM_TOPICS && e@ == TopicsErr::TooManyTopics {
                    max: MAX_CLAIM_TOPICS,
                },
            },
    {
        if required_topics.len() > MAX_CLAIM_TOPICS {
            return Err(TopicsError::TooManyTopics { max: MAX_CLAIM_TOPICS });
        }
        let mut resp: TopicsResponse = Response::new();
        resp.attr("method", text("instantiate"));
        resp.attr("owner", ctx.sender.text.clone());
        assert(resp.attrs() =~= seq![("method"@, "instantiate"@), ("owner"@, ctx.sender.text@)]);
        Ok((TopicsState { owner, required_topics }, resp))
    }

    /// Owner only: replaces the required topics; at most
    /// `MAX_CLAIM_TOPICS` of them.
    pub fn set_required_topics(&mut self, ctx: &Ctx, topics: Vec<u32>) -> (r: Result<TopicsResponse, TopicsError>)
        ensures
            match r {
                Ok(resp) => ctx.sender.text@ == old(self).owner@ && topics@.len() <= MAX_CLAIM_TOPICS
                    && final(self).owner == old(self).owner && final(self).required_topics@ == topics@
                    && plain(resp, seq![("action"@, "set_required_topics"@)]),
                Err(e) => *final(self) == *old(self) && if ctx.sender.text@ != old(self).owner@ {
                    e@ == TopicsErr::Unauthorized
                } else {
                    topics@.len() > MAX_CLAIM_TOPICS && e@ == TopicsErr::TooManyTopics { max: MAX_CLAIM_TOPICS }
                },
            },
    {
        if ctx.sender.text != self.owner {
            return Err(TopicsError::Unauthorized);
        }
        if topics.len() > MAX_CLAIM_TOPICS {
            return Err(TopicsError::TooManyTopics { max: MAX_CLAIM_TOPICS });
        }
        self.required_topics = topics;
        let mut resp: TopicsResponse = Response::new();
        resp.attr("action", text("set_required_topics"));
        assert(resp.attrs() =~= seq![("action"@, "set_required_topics"@)]);
        Ok(resp)
    }

    /// Owner only: hands ownership to `owner` (kept as given).
    pub fn update_owner(&mut self, ctx: &Ctx, owner: String) -> (r: Result<TopicsResponse, TopicsError>)
        ensures
            match r {
                Ok(resp) => ctx.sender.text@ == old(self).owner@ && final(self).owner@ == owner@
                    && final(self).required_topics == old(self).required_topics && plain(
                    resp,
                    seq![("action"@, "update_owner"@), ("owner"@, owner@)],
                ),
                Err(e) => *final(self) == *old(self) && ctx.sender.text@ != old(self).owner@ && e@
                    == TopicsErr::Unauthorized,
            },
    {
        if ctx.sender.text != self.owner {
            return Err(TopicsError::Unauthorized);
        }
        let ghost o = owner@;
        let shown = owner.clone();
        self.owner = owner;
        let mut resp: TopicsResponse = Response::new();
        resp.attr("action", text("update_owner"));
        resp.attr("owner", shown);
        assert(resp.attrs() =~= seq![("action"@, "update_owner"@), ("owner"@, o)]);
        Ok(resp)
    }

    pub fn required_topics(&self) -> (r: RequiredTopicsResponse)
        ensures
            r.topics@ == self.required_topics@,
    {
        RequiredTopicsResponse { topics: copy_topics(&self.required_topics) }
    }

    pub fn owner(&self) -> (r: OwnerResponse)
        ensures
            r.owner@ == self.owner@,
    {
        OwnerResponse { owner: self.owner.clone() }
    }
}

} // verus!
