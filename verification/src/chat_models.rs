//! The models that a chat can use, and the one it uses.
use crate::json::opt_str;
use crate::text::{concat2, concat3, join, joined, same, views};
use vstd::prelude::*;
use vstd::string::*;

verus! {

/// How many models of a server are offered.
pub const MAX_LISTED_MODELS: usize = 30;

#[derive(Debug)]
pub enum ModelFetch {
    /// Fetch in progress (background thread running).
    Loading,
    /// Fetch succeeded; the list is fully populated.
    Loaded,
    /// Fetch failed with the given error message.
    Failed(String),
}

pub enum FetchView {
    Loading,
    Loaded,
    Failed(Seq<char>),
}

impl View for ModelFetch {
    type V = FetchView;

    open spec fn view(&self) -> FetchView {
        match *self {
            ModelFetch::Loading => FetchView::Loading,
            ModelFetch::Loaded => FetchView::Loaded,
            ModelFetch::Failed(e) => FetchView::Failed(e@),
        }
    }
}

/// Ordered list of candidate models, and the one of the current session.
#[derive(Debug)]
pub struct Models {
    pub available: Vec<String>,
    pub index: usize,
    pub fetch: ModelFetch,
    /// Whether the server's list is still awaited.
    pub awaited: bool,
}

pub struct ModelsView {
    pub available: Seq<Seq<char>>,
    pub index: usize,
    pub fetch: FetchView,
    pub awaited: bool,
}

impl View for Models {
    type V = ModelsView;

    open spec fn view(&self) -> ModelsView {
        ModelsView {
            available: views(self.available@),
            index: self.index,
            fetch: self.fetch@,
            awaited: self.awaited,
        }
    }
}

pub open spec fn is_other(model: Seq<char>) -> spec_fn(Seq<char>) -> bool {
    |m: Seq<char>| m != model
}

/// The list without a model.
pub open spec fn others(list: Seq<Seq<char>>, model: Seq<char>) -> Seq<Seq<char>> {
    list.filter(is_other(model))
}

/// The list with a model at its head, and nowhere else.
pub open spec fn led_by(list: Seq<Seq<char>>, model: Seq<char>) -> Seq<Seq<char>> {
    seq![model] + others(list, model)
}

/// The first place of a model, or the length of the list.
pub open spec fn place_of(list: Seq<Seq<char>>, model: Seq<char>) -> int
    decreases list.len(),
{
    if list.len() == 0 || list[0] == model {
        0
    } else {
        1 + place_of(list.drop_first(), model)
    }
}

/// The place of a model that is chosen, else the first.
pub open spec fn place_or_first(list: Seq<Seq<char>>, model: Option<Seq<char>>) -> int {
    match model {
        Some(m) => if place_of(list, m) < list.len() {
            place_of(list, m)
        } else {
            0
        },
        None => 0,
    }
}

/// The models at the start: the user's list, or the two configured ones, or
/// what the server offered last time.
pub open spec fn initial_list(
    chat_model: Seq<char>,
    choices: Seq<Seq<char>>,
    fast_model: Option<Seq<char>>,
    cached: Seq<Seq<char>>,
) -> Seq<Seq<char>> {
    if choices.len() > 0 {
        led_by(choices, chat_model)
    } else {
        match fast_model {
            Some(fast) => if fast != chat_model {
                seq![chat_model, fast]
            } else {
                seq![chat_model]
            },
            None => led_by(cached, chat_model),
        }
    }
}

pub open spec fn initial_models(
    chat_model: Seq<char>,
    choices: Seq<Seq<char>>,
    fast_model: Option<Seq<char>>,
    cached: Seq<Seq<char>>,
    last: Option<Seq<char>>,
) -> ModelsView {
    let available = initial_list(chat_model, choices, fast_model, cached);
    let awaited = choices.len() == 0 && fast_model is None;
    ModelsView {
        available,
        index: place_or_first(available, last) as usize,
        fetch: if awaited && available.len() <= 1 {
            FetchView::Loading
        } else {
            FetchView::Loaded
        },
        awaited,
    }
}

/// What came of asking the server for its models.
#[derive(Debug)]
pub enum FetchReply {
    Pending,
    List(Vec<String>),
    Failed(String),
    Disconnected,
}

pub open spec fn capped(list: Seq<Seq<char>>) -> Seq<Seq<char>> {
    if list.len() > MAX_LISTED_MODELS {
        list.take(MAX_LISTED_MODELS as int)
    } else {
        list
    }
}

pub open spec fn missing_model_text(model: Seq<char>) -> Seq<char> {
    "saved model '"@ + model
        + "' is not in the server's model list; please select a model manually"@
}

pub open spec fn current_of(models: ModelsView) -> Seq<char> {
    if models.index < models.available.len() {
        models.available[models.index as int]
    } else {
        seq![]
    }
}

/// The models once the server answered. A model that was chosen before and is
/// no longer offered is an error, not a silent change to the first one.
pub open spec fn fetched(
    models: ModelsView,
    reply: FetchReply,
    last: Option<Seq<char>>,
) -> ModelsView {
    if !models.awaited {
        models
    } else {
        match reply {
            FetchReply::Pending => models,
            FetchReply::List(list) => {
                let offered = capped(views(list@));
                let saved = match last {
                    Some(m) => m,
                    None => current_of(models),
                };
                let at = place_of(offered, saved);
                ModelsView {
                    available: offered,
                    index: if at < offered.len() {
                        at as usize
                    } else {
                        0
                    },
                    fetch: if at < offered.len() {
                        FetchView::Loaded
                    } else {
                        FetchView::Failed(missing_model_text(saved))
                    },
                    awaited: false,
                }
            },
            FetchReply::Failed(e) => ModelsView {
                fetch: FetchView::Failed(e@),
                awaited: false,
                ..models
            },
            FetchReply::Disconnected => ModelsView {
                fetch: FetchView::Failed("fetch thread disconnected"@),
                awaited: false,
                ..models
            },
        }
    }
}

/// The list of models, one a line, with the current one marked.
pub open spec fn marked_models(list: Seq<Seq<char>>, index: usize) -> Seq<Seq<char>> {
    Seq::new(
        list.len(),
        |i: int|
            if i == index {
                "* "@ + list[i]
            } else {
                "  "@ + list[i]
            },
    )
}

/// What the chat says to `/model`.
pub open spec fn model_reply(models: ModelsView, arg: Option<Seq<char>>) -> Seq<char> {
    match arg {
        Some(name) => if place_of(models.available, name) < models.available.len() {
            "Switched to "@ + name
        } else {
            "Model '"@ + name + "' not found. Available: "@ + joined(models.available, ", "@)
        },
        None => joined(marked_models(models.available, models.index), "\n"@),
    }
}

proof fn lemma_place(list: Seq<Seq<char>>, model: Seq<char>)
    ensures
        0 <= place_of(list, model) <= list.len(),
        place_of(list, model) < list.len() ==> list[place_of(list, model)] == model,
        forall|k: int| 0 <= k < place_of(list, model) ==> list[k] != model,
    decreases list.len(),
{
    if list.len() > 0 && list[0] != model {
        lemma_place(list.drop_first(), model);
        let rest = list.drop_first();
        let at = place_of(rest, model);
        assert(at < rest.len() ==> rest[at] == list[at + 1]);
        assert forall|k: int| 0 <= k < place_of(list, model) implies list[k] != model by {
            if k > 0 {
                assert(rest[k - 1] == list[k]);
            }
        }
    }
}

/// The place of a model, where it has one.
fn find_model(list: &Vec<String>, model: &str) -> (r: Option<usize>)
    ensures
        match r {
            Some(i) => i < list.len() && i == place_of(views(list@), model@),
            None => place_of(views(list@), model@) == list.len(),
        },
{
    let ghost all = views(list@);
    let mut i: usize = 0;
    assert(all.skip(0) =~= all);
    while i < list.len()
        invariant
            i <= list.len(),
            all == views(list@),
            place_of(all, model@) == i + place_of(all.skip(i as int), model@),
        decreases list.len() - i,
    {
        assert(all.skip(i as int)[0] == list@[i as int]@);
        assert(all.skip(i as int).drop_first() =~= all.skip(i + 1));
        if same(list[i].as_str(), model) {
            return Some(i);
        }
        i += 1;
    }
    None
}

/// The list with a model at its head, and nowhere else.
pub fn models_led_by(list: &Vec<String>, model: &str) -> (r: Vec<String>)
    ensures
        views(r@) == led_by(views(list@), model@),
{
    let ghost all = views(list@);
    let mut out: Vec<String> = Vec::new();
    out.push(model.to_owned());
    let mut i: usize = 0;
    proof {
        reveal(Seq::filter);
        assert(views(out@) =~= led_by(all.take(0), model@));
    }
    while i < list.len()
        invariant
            i <= list.len(),
            all == views(list@),
            views(out@) == led_by(all.take(i as int), model@),
        decreases list.len() - i,
    {
        proof {
            reveal(Seq::filter);
            assert(all.take(i + 1).drop_last() =~= all.take(i as int));
            assert(all.take(i + 1).last() == list@[i as int]@);
        }
        let ghost before = views(out@);
        if !same(list[i].as_str(), model) {
            out.push(list[i].clone());
            assert(views(out@) =~= before.push(list@[i as int]@));
        }
        assert(views(out@) =~= led_by(all.take(i + 1), model@));
        i += 1;
    }
    assert(all.take(i as int) =~= all);
    out
}

impl Models {
    /// Model resolution priority: a user-curated list is used as it is; two
    /// configured models are two slots, with no fetch; else the server is asked
    /// for the full list, and what it said last time stands in for it. The model
    /// that was selected last is the current one where it is on the list.
    pub fn new(
        chat_model: &str,
        choices: &Vec<String>,
        fast_model: Option<&str>,
        cached: &Vec<String>,
        last: Option<&str>,
    ) -> (r: Models)
        ensures
            r@ == initial_models(
                chat_model@,
                views(choices@),
                opt_str(fast_model),
                views(cached@),
                opt_str(last),
            ),
            r.index < r.available.len(),
    {
        assert(views(choices@).len() == choices@.len());
        let mut awaited = false;
        let available = if choices.len() > 0 {
            models_led_by(choices, chat_model)
        } else {
            match fast_model {
                Some(fast) => {
                    let mut two: Vec<String> = Vec::new();
                    two.push(chat_model.to_owned());
                    if !same(fast, chat_model) {
                        two.push(fast.to_owned());
                        assert(views(two@) =~= seq![chat_model@, fast@]);
                    } else {
                        assert(views(two@) =~= seq![chat_model@]);
                    }
                    two
                },
                None => {
                    awaited = true;
                    models_led_by(cached, chat_model)
                },
            }
        };
        assert(views(available@).len() == available@.len());
        let index: usize = match last {
            Some(m) => match find_model(&available, m) {
                Some(i) => i,
                None => 0,
            },
            None => 0,
        };
        let fetch = if awaited && available.len() <= 1 {
            ModelFetch::Loading
        } else {
            ModelFetch::Loaded
        };
        Models { available, index, fetch, awaited }
    }

    pub fn current_model(&self) -> (r: String)
        ensures
            r@ == current_of(self@),
    {
        assert(views(self.available@).len() == self.available@.len());
        if self.index < self.available.len() {
            assert(
                views(self.available@)[self.index as int] == self.available@[self.index as int]@
            );
            self.available[self.index].clone()
        } else {
            let r = String::new();
            assert(r@ =~= seq![]);
            r
        }
    }

    /// Takes what came of asking the server. Returns true if a redraw is needed.
    pub fn drain_model_fetch(&mut self, reply: FetchReply, last: Option<&str>) -> (r: bool)
        ensures
            final(self)@ == fetched(old(self)@, reply, opt_str(last)),
            r == (old(self)@.awaited && !(reply is Pending)),
    {
        if !self.awaited {
            return false;
        }
        match reply {
            FetchReply::Pending => false,
            FetchReply::List(list) => {
                let ghost all = views(list@);
                let mut offered = list;
                if offered.len() > MAX_LISTED_MODELS {
                    offered.truncate(MAX_LISTED_MODELS);
                }
                assert(all.len() == list@.len());
                assert(views(offered@) =~= capped(all));
                let saved = match last {
                    Some(m) => m.to_owned(),
                    None => self.current_model(),
                };
                match find_model(&offered, saved.as_str()) {
                    Some(i) => {
                        self.index = i;
                        self.fetch = ModelFetch::Loaded;
                    },
                    None => {
                        self.index = 0;
                        self.fetch = ModelFetch::Failed(
                            concat3(
                                "saved model '",
                                saved.as_str(),
                                "' is not in the server's model list; please select a model manually",
                            ),
                        );
                    },
                }
                self.available = offered;
                self.awaited = false;
                true
            },
            FetchReply::Failed(e) => {
                self.fetch = ModelFetch::Failed(e);
                self.awaited = false;
                true
            },
            FetchReply::Disconnected => {
                self.fetch = ModelFetch::Failed("fetch thread disconnected".to_owned());
                self.awaited = false;
                true
            },
        }
    }

    /// Switches to the named model, or lists the models. The second result says
    /// whether a choice is to be remembered.
    pub fn cmd_model(&mut self, arg: Option<&str>) -> (r: (String, bool))
        ensures
            r.0@ == model_reply(old(self)@, opt_str(arg)),
            r.1 == (opt_str(arg) matches Some(name) && place_of(old(self)@.available, name) < old(
                self,
            )@.available.len()),
            final(self)@ == (if r.1 {
                ModelsView {
                    index: place_of(old(self)@.available, opt_str(arg)->0) as usize,
                    ..old(self)@
                }
            } else {
                old(self)@
            }),
    {
        assert(views(self.available@).len() == self.available@.len());
        match arg {
            Some(name) => match find_model(&self.available, name) {
                Some(i) => {
                    self.index = i;
                    (concat2("Switched to ", name), true)
                },
                None => {
                    let list = join(&self.available, ", ");
                    let head = concat3("Model '", name, "' not found. Available: ");
                    (concat2(head.as_str(), list.as_str()), false)
                },
            },
            None => {
                let lines = self.marked();
                (join(&lines, "\n"), false)
            },
        }
    }

    fn marked(&self) -> (r: Vec<String>)
        ensures
            views(r@) == marked_models(self@.available, self.index),
    {
        let ghost all = self@.available;
        let mut out: Vec<String> = Vec::new();
        let mut i: usize = 0;
        while i < self.available.len()
            invariant
                i <= self.available.len(),
                out.len() == i,
                all == views(self.available@),
                forall|k: int|
                    0 <= k < i ==> (#[trigger] out@[k])@ == marked_models(all, self.index)[k],
            decreases self.available.len() - i,
        {
            assert(all[i as int] == self.available@[i as int]@);
            let line = if i == self.index {
                concat2("* ", self.available[i].as_str())
            } else {
                concat2("  ", self.available[i].as_str())
            };
            out.push(line);
            i += 1;
        }
        assert(views(out@) =~= marked_models(all, self.index));
        out
    }
}

/// The configured model always leads the list at the start, and stands in it
/// once.
pub proof fn configured_model_leads(
    chat_model: Seq<char>,
    choices: Seq<Seq<char>>,
    fast_model: Option<Seq<char>>,
    cached: Seq<Seq<char>>,
)
    ensures
        ({
            let list = initial_list(chat_model, choices, fast_model, cached);
            &&& list.len() > 0
            &&& list[0] == chat_model
            &&& forall|k: int| 0 < k < list.len() ==> #[trigger] list[k] != chat_model
        }),
{
    let list = initial_list(chat_model, choices, fast_model, cached);
    let source = if choices.len() > 0 {
        choices
    } else {
        cached
    };
    let keep = is_other(chat_model);
    assert forall|k: int| 0 < k < list.len() implies #[trigger] list[k] != chat_model by {
        if choices.len() > 0 || fast_model is None {
            assert(list[k] == others(source, chat_model)[k - 1]);
            source.lemma_filter_pred(keep, k - 1);
        }
    }
}

/// Once a server's list is taken, the current model is the one that was chosen,
/// or the list is marked as failed: the choice never changes silently.
pub proof fn choice_never_changes_silently(
    models: ModelsView,
    list: Vec<String>,
    last: Option<Seq<char>>,
)
    requires
        models.awaited,
    ensures
        ({
            let after = fetched(models, FetchReply::List(list), last);
            let saved = match last {
                Some(m) => m,
                None => current_of(models),
            };
            after.fetch is Failed || current_of(after) == saved
        }),
{
    let offered = capped(views(list@));
    let saved = match last {
        Some(m) => m,
        None => current_of(models),
    };
    lemma_place(offered, saved);
}

} // verus!
