//! The translation of entry titles, step by step: the caller looks into
//! the cache, calls the generation service and writes to the store as the
//! actions ask, and reports how it went; the steps here decide what
//! follows.

use vstd::prelude::*;
use crate::enrich::{hash_llm_input, llm_input_hash};
use crate::llm::{config_fault, validate_config, LlmConfig};
use crate::storage::models::EntryTitleRecord;
use crate::text::{concat2, is_blank, str_is_blank, trim, trimmed};

verus! {

/// Where the translation of the titles stands.
#[derive(Debug)]
pub enum TranslationState {
    /// The cache is being asked for the title at hand.
    AwaitingCache { hash: String, input: String },
    /// The generation service is translating the title at hand.
    AwaitingGeneration { hash: String },
    /// The translation is being written to the cache.
    AwaitingCacheWrite { text: String },
    /// The translated title is being written to the entry.
    AwaitingTitleWrite,
    /// The batch has ended.
    Finished,
}

/// What the caller reports.
#[derive(Debug)]
pub enum TranslationEvent {
    /// The cache held this, or nothing.
    CacheLooked(Option<String>),
    /// The generation service answered with this text, or failed with this
    /// message.
    Generated(Result<String, String>),
    /// The cache has taken the translation.
    CacheStored,
    /// The entry has taken its translated title.
    TitleStored,
    /// Store or cache failed, with this message.
    StoreFailed(String),
}

/// What the caller is to do next.
#[derive(Debug)]
pub enum TranslationAction {
    /// Look this key up in the cache.
    LookupCache { task_type: String, model: String, hash: String },
    /// Ask the generation service.
    Generate { system_prompt: String, user_prompt: String },
    /// Write this translation to the cache.
    StoreCache { task_type: String, model: String, hash: String, text: String },
    /// Set the translated title of this entry.
    StoreTitle { entry_id: i64, text: String },
    /// The batch is over: this many titles were translated, or it was
    /// given up for this reason.
    Finish(Result<usize, String>),
}

/// How far the batch has come: the entry at hand, the titles translated so
/// far, and the state.
#[derive(Debug)]
pub struct TranslationProgress {
    pub position: usize,
    pub updated: usize,
    pub state: TranslationState,
}

/// The translation of the titles of a batch of entries.
pub struct TitleTranslation {
    targets: Vec<EntryTitleRecord>,
    model: String,
    progress: TranslationProgress,
}

/// The most titles that are translated after one sync.
pub const TITLE_BATCH_LIMIT: i64 = 60;

/// Whether there is anything to translate with: `Ok(false)` without a
/// configuration, the error's text for one that is refused, `Ok(true)` for
/// one that is valid.
pub fn translation_gate(config: &Option<LlmConfig>) -> (r: Result<bool, String>)
    ensures
        match *config {
            None => r == Ok::<bool, String>(false),
            Some(c) => match config_fault(c) {
                None => r == Ok::<bool, String>(true),
                Some(fault) => r matches Err(m) && m@ == "invalid llm config: "@ + fault,
            },
        },
{
    match config {
        None => Ok(false),
        Some(c) => match validate_config(c) {
            Ok(_) => Ok(true),
            Err(e) => Err(e.message()),
        },
    }
}

/// The index of the first entry from `from` on whose title is not blank, or
/// the number of entries where there is none.
pub open spec fn next_pending(targets: Seq<EntryTitleRecord>, from: int) -> int
    decreases targets.len() - from,
{
    if from >= targets.len() {
        targets.len() as int
    } else if from >= 0 && !is_blank(targets[from].title@) {
        from
    } else {
        next_pending(targets, from + 1)
    }
}

/// The step that turns to the next title from `from` on: entries with a
/// blank title are passed over; the trimmed title of the first other is
/// looked up in the cache under its key; with none left the batch ends with
/// the number of titles translated.
pub open spec fn turns_to_next(
    targets: Seq<EntryTitleRecord>,
    model: Seq<char>,
    from: int,
    updated: usize,
    post: TranslationProgress,
    action: TranslationAction,
) -> bool {
    let k = next_pending(targets, from);
    if k >= targets.len() {
        &&& post.position == targets.len()
        &&& post.updated == updated
        &&& post.state is Finished
        &&& action == TranslationAction::Finish(Ok(updated))
    } else {
        &&& post.position == k
        &&& post.updated == updated
        &&& post.state matches TranslationState::AwaitingCache { hash, input }
        &&& input@ == trimmed(targets[k].title@)
        &&& hash@ == llm_input_hash("title_translate_zh"@, model, input@)
        &&& action matches TranslationAction::LookupCache { task_type, model: m, hash: h }
        &&& task_type@ == "title_translate_zh"@
        &&& m@ == model
        &&& h@ == hash@
    }
}

/// The step that gives the batch up: nothing else changes.
pub open spec fn gives_up(
    pre: TranslationProgress,
    reason: Seq<char>,
    post: TranslationProgress,
    action: TranslationAction,
) -> bool {
    &&& post.position == pre.position
    &&& post.updated == pre.updated
    &&& post.state is Finished
    &&& action matches TranslationAction::Finish(Err(m))
    &&& m@ == reason
}

/// The step that writes the title of the entry at hand: `text`, trimmed.
pub open spec fn stores_title(
    targets: Seq<EntryTitleRecord>,
    pre: TranslationProgress,
    text: Seq<char>,
    post: TranslationProgress,
    action: TranslationAction,
) -> bool {
    &&& post.position == pre.position
    &&& post.updated == pre.updated
    &&& post.state is AwaitingTitleWrite
    &&& action matches TranslationAction::StoreTitle { entry_id, text: t }
    &&& entry_id == targets[pre.position as int].id
    &&& t@ == trimmed(text)
}

/// `post` and `action` are what follows `event` after `pre`. A text found
/// in the cache is used as it is, and the service is not asked; a text
/// that had to be generated goes to the cache first. A failure of the
/// service or of the store gives up the batch, with the titles not yet
/// reached left as they are.
pub open spec fn is_translation_step(
    targets: Seq<EntryTitleRecord>,
    model: Seq<char>,
    pre: TranslationProgress,
    event: TranslationEvent,
    post: TranslationProgress,
    action: TranslationAction,
) -> bool {
    match (pre.state, event) {
        (TranslationState::Finished, _) => gives_up(
            pre,
            "event does not fit the state of the translation"@,
            post,
            action,
        ),
        (_, TranslationEvent::StoreFailed(message)) => gives_up(pre, message@, post, action),
        (
            TranslationState::AwaitingCache { hash, input },
            TranslationEvent::CacheLooked(Some(text)),
        ) => stores_title(targets, pre, text@, post, action),
        (TranslationState::AwaitingCache { hash, input }, TranslationEvent::CacheLooked(None)) => {
            &&& post.position == pre.position
            &&& post.updated == pre.updated
            &&& post.state == (TranslationState::AwaitingGeneration { hash })
            &&& action matches TranslationAction::Generate { system_prompt, user_prompt }
            &&& system_prompt@ == "You translate English article titles into concise Chinese."@
            &&& user_prompt@
                == "Translate this article title into Chinese and keep it concise. Output only Chinese title.\n\n"@
                + input@
        },
        (
            TranslationState::AwaitingGeneration { hash },
            TranslationEvent::Generated(Ok(text)),
        ) => {
            &&& post.position == pre.position
            &&& post.updated == pre.updated
            &&& post.state == (TranslationState::AwaitingCacheWrite { text })
            &&& action matches TranslationAction::StoreCache { task_type, model: m, hash: h, text: t }
            &&& task_type@ == "title_translate_zh"@
            &&& m@ == model
            &&& h == hash
            &&& t == text
        },
        (
            TranslationState::AwaitingGeneration { hash },
            TranslationEvent::Generated(Err(message)),
        ) => gives_up(pre, message@, post, action),
        (TranslationState::AwaitingCacheWrite { text }, TranslationEvent::CacheStored) => stores_title(
            targets,
            pre,
            text@,
            post,
            action,
        ),
        (TranslationState::AwaitingTitleWrite, TranslationEvent::TitleStored) => turns_to_next(
            targets,
            model,
            pre.position + 1,
            (pre.updated + 1) as usize,
            post,
            action,
        ),
        _ => gives_up(pre, "event does not fit the state of the translation"@, post, action),
    }
}

impl TitleTranslation {
    #[verifier::type_invariant]
    spec fn inv(self) -> bool {
        &&& self.progress.updated <= self.progress.position <= self.targets@.len()
        &&& self.progress.state !is Finished ==> self.progress.position < self.targets@.len()
    }

    /// The entries of the batch, in the order in which they are taken.
    pub closed spec fn targets(self) -> Seq<EntryTitleRecord> {
        self.targets@
    }

    /// The model the titles are translated with.
    pub closed spec fn model(self) -> Seq<char> {
        self.model@
    }

    /// How far the batch has come.
    pub closed spec fn progress(self) -> TranslationProgress {
        self.progress
    }

    fn turn_to(
        targets: &Vec<EntryTitleRecord>,
        model: &String,
        from: usize,
        updated: usize,
    ) -> (r: (TranslationProgress, TranslationAction))
        requires
            updated <= from <= targets@.len(),
        ensures
            turns_to_next(targets@, model@, from as int, updated, r.0, r.1),
            r.0.updated <= r.0.position <= targets@.len(),
            r.0.state !is Finished ==> r.0.position < targets@.len(),
    {
        let mut k: usize = from;
        while k < targets.len() && str_is_blank(targets[k].title.as_str())
            invariant
                from <= k <= targets@.len(),
                next_pending(targets@, from as int) == next_pending(targets@, k as int),
            decreases targets@.len() - k,
        {
            k += 1;
        }
        if k >= targets.len() {
            (
                TranslationProgress {
                    position: targets.len(),
                    updated,
                    state: TranslationState::Finished,
                },
                TranslationAction::Finish(Ok(updated)),
            )
        } else {
            let input = trim(targets[k].title.as_str());
            let hash = hash_llm_input("title_translate_zh", model.as_str(), input.as_str());
            let action = TranslationAction::LookupCache {
                task_type: "title_translate_zh".to_owned(),
                model: model.clone(),
                hash: hash.clone(),
            };
            (
                TranslationProgress {
                    position: k,
                    updated,
                    state: TranslationState::AwaitingCache { hash, input },
                },
                action,
            )
        }
    }

    /// Starts the batch: turns to the first title that is not blank.
    pub fn begin(model: String, targets: Vec<EntryTitleRecord>) -> (r: (
        TitleTranslation,
        TranslationAction,
    ))
        ensures
            r.0.targets() == targets@,
            r.0.model() == model@,
            turns_to_next(targets@, model@, 0, 0, r.0.progress(), r.1),
    {
        let (progress, action) = Self::turn_to(&targets, &model, 0, 0);
        (TitleTranslation { targets, model, progress }, action)
    }

    /// Takes the caller's report and says what follows.
    pub fn step(&mut self, event: TranslationEvent) -> (action: TranslationAction)
        ensures
            final(self).targets() == old(self).targets(),
            final(self).model() == old(self).model(),
            is_translation_step(
                old(self).targets(),
                old(self).model(),
                old(self).progress(),
                event,
                final(self).progress(),
                action,
            ),
    {
        proof {
            use_type_invariant(&*self);
        }
        let position: usize = self.progress.position;
        let updated: usize = self.progress.updated;
        let mut state = TranslationState::Finished;
        core::mem::swap(&mut self.progress.state, &mut state);
        let count: usize = self.targets.len();
        assert(state !is Finished ==> position < count);
        let (progress, action) = match (state, event) {
            (TranslationState::Finished, _) => Self::give_up(
                position,
                updated,
                "event does not fit the state of the translation".to_owned(),
            ),
            (_, TranslationEvent::StoreFailed(message)) => Self::give_up(position, updated, message),
            (
                TranslationState::AwaitingCache { hash, input },
                TranslationEvent::CacheLooked(Some(text)),
            ) => (
                TranslationProgress {
                    position,
                    updated,
                    state: TranslationState::AwaitingTitleWrite,
                },
                TranslationAction::StoreTitle {
                    entry_id: self.targets[position].id,
                    text: trim(text.as_str()),
                },
            ),
            (
                TranslationState::AwaitingCache { hash, input },
                TranslationEvent::CacheLooked(None),
            ) => (
                TranslationProgress {
                    position,
                    updated,
                    state: TranslationState::AwaitingGeneration { hash },
                },
                TranslationAction::Generate {
                    system_prompt: "You translate English article titles into concise Chinese.".to_owned(),
                    user_prompt: concat2(
                        "Translate this article title into Chinese and keep it concise. Output only Chinese title.\n\n",
                        input.as_str(),
                    ),
                },
            ),
            (
                TranslationState::AwaitingGeneration { hash },
                TranslationEvent::Generated(Ok(text)),
            ) => {
                let action = TranslationAction::StoreCache {
                    task_type: "title_translate_zh".to_owned(),
                    model: self.model.clone(),
                    hash,
                    text: text.clone(),
                };
                (
                    TranslationProgress {
                        position,
                        updated,
                        state: TranslationState::AwaitingCacheWrite { text },
                    },
                    action,
                )
            },
            (
                TranslationState::AwaitingGeneration { hash },
                TranslationEvent::Generated(Err(message)),
            ) => Self::give_up(position, updated, message),
            (TranslationState::AwaitingCacheWrite { text }, TranslationEvent::CacheStored) => (
                TranslationProgress {
                    position,
                    updated,
                    state: TranslationState::AwaitingTitleWrite,
                },
                TranslationAction::StoreTitle {
                    entry_id: self.targets[position].id,
                    text: trim(text.as_str()),
                },
            ),
            (TranslationState::AwaitingTitleWrite, TranslationEvent::TitleStored) => Self::turn_to(
                &self.targets,
                &self.model,
                position + 1,
                updated + 1,
            ),
            _ => Self::give_up(
                position,
                updated,
                "event does not fit the state of the translation".to_owned(),
            ),
        };
        self.progress = progress;
        action
    }

    fn give_up(position: usize, updated: usize, reason: String) -> (r: (
        TranslationProgress,
        TranslationAction,
    ))
        ensures
            r.0.position == position,
            r.0.updated == updated,
            r.0.state is Finished,
            r.1 == TranslationAction::Finish(Err(reason)),
    {
        (
            TranslationProgress { position, updated, state: TranslationState::Finished },
            TranslationAction::Finish(Err(reason)),
        )
    }
}

} // verus!
