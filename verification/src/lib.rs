//! Tools that turn a book of Markdown chapters into a document that
//! renderers can walk: a tree of rich text for each chapter, and a
//! navigation tree over the chapters.

pub mod add_copyright;
pub mod book;
pub mod bookir;
pub mod collect;
pub mod config;
pub mod epub;
pub mod helpers;
pub mod pdf;
pub mod text;
pub mod xhtml;

use crate::book::BookItem;
use crate::bookir::grammar::ParseError;
use crate::bookir::{
    clone_extra_files, clone_texts, extra_views, Book, BookView, ExtraItem, ExtraItemView,
    RichTextOptions,
};
use crate::bookir::nav::tree_of;
use crate::collect::{
    asks_for_chapters, build_tree, full_plan, groups_tree, outputs_of, plan_outputs, plan_views,
    planned, OutputPlanView, PlanError, Planning,
};
use crate::config::{Config, OutputType};
use crate::text::text_views;
use vstd::prelude::*;

verus! {

/// One thing that a renderer writes.
#[derive(Clone, Debug, Hash, PartialEq, Eq)]
pub enum Output {
    /// The whole book.
    Full,
    /// One part, by its identifier.
    Part(String),
    /// The chapters that go before every part.
    ByPartHead,
    /// The chapters that go after every part.
    ByPartTail,
}

/// One thing that a renderer writes, as a value of the model.
pub enum OutputView {
    Full,
    Part(Seq<char>),
    ByPartHead,
    ByPartTail,
}

impl View for Output {
    type V = OutputView;

    open spec fn view(&self) -> OutputView {
        match self {
            Output::Full => OutputView::Full,
            Output::Part(id) => OutputView::Part(id@),
            Output::ByPartHead => OutputView::ByPartHead,
            Output::ByPartTail => OutputView::ByPartTail,
        }
    }
}


/// One output of a book: the name of its file, its document, and what it
/// is.
#[derive(Debug, PartialEq, Eq)]
pub struct CollectedOutput {
    pub path: String,
    pub book: Book,
    pub output: Output,
}

/// One output of a book, as a value of the model.
pub struct CollectedOutputView {
    pub path: Seq<char>,
    pub book: BookView,
    pub output: OutputView,
}

impl View for CollectedOutput {
    type V = CollectedOutputView;

    open spec fn view(&self) -> CollectedOutputView {
        CollectedOutputView { path: self.path@, book: self.book@, output: self.output@ }
    }
}

/// The model of each output of `s`, in order.
pub open spec fn output_views(s: Seq<CollectedOutput>) -> Seq<CollectedOutputView> {
    Seq::new(s.len(), |i: int| s[i]@)
}

/// Why a book gives no outputs.
#[derive(Debug, Clone, Copy, PartialEq, Eq, Hash)]
pub enum GenError {
    /// The outputs cannot be planned.
    Plan(PlanError),
    /// A chapter has no rich-text tree.
    Parse(ParseError),
}

/// What goes into every output of a book.
pub struct Shared {
    pub extra_files: Seq<ExtraItemView>,
    pub authors: Seq<Seq<char>>,
    pub options: RichTextOptions,
}

/// The output that a plan gives: its document holds the tree of its items
/// under its title and identifier.
pub open spec fn output_of(plan: OutputPlanView, shared: Shared) -> Result<
    CollectedOutputView,
    ParseError,
> {
    match groups_tree(plan.groups, plan.groups.len() as int, shared.options) {
        Err(e) => Err(e),
        Ok(tree) => Ok(
            CollectedOutputView {
                path: plan.path,
                book: BookView {
                    title: plan.title,
                    tree,
                    extra_files: shared.extra_files,
                    authors: shared.authors,
                    id: plan.id,
                },
                output: plan.output,
            },
        ),
    }
}

/// The outputs that the first `n` of `plans` give, or the first error among
/// them.
pub open spec fn outputs_built(plans: Seq<OutputPlanView>, n: int, shared: Shared) -> Result<
    Seq<CollectedOutputView>,
    ParseError,
>
    decreases n,
{
    if n <= 0 {
        Ok(Seq::empty())
    } else {
        match outputs_built(plans, n - 1, shared) {
            Err(e) => Err(e),
            Ok(outputs) => match output_of(plans[n - 1], shared) {
                Err(e) => Err(e),
                Ok(output) => Ok(outputs.push(output)),
            },
        }
    }
}

/// The outputs of a book: those that its configuration asks for, each built
/// from its items.
pub open spec fn generated(
    types: Seq<crate::config::OutputType>,
    book: Planning,
    shared: Shared,
) -> Result<Seq<CollectedOutputView>, GenError> {
    match outputs_of(types, book) {
        Err(e) => Err(GenError::Plan(e)),
        Ok(plans) => match outputs_built(plans, plans.len() as int, shared) {
            Err(e) => Err(GenError::Parse(e)),
            Ok(outputs) => Ok(outputs),
        },
    }
}

/// An error among the first outputs is the error of them all.
pub proof fn lemma_outputs_error(plans: Seq<OutputPlanView>, first: int, n: int, shared: Shared)
    requires
        0 < first <= n,
        outputs_built(plans, first, shared) is Err,
    ensures
        outputs_built(plans, n, shared) == outputs_built(plans, first, shared),
    decreases n - first,
{
    if first < n {
        lemma_outputs_error(plans, first, n - 1, shared);
    }
}

/// Where the whole book is all that is asked for and its file is not
/// switched off, there is one output, and its tree is the tree of the top
/// level of the book as it stands: the part titles and the separators of
/// the book bound its parts.
pub proof fn lemma_whole_book(book: Planning, shared: Shared)
    requires
        full_plan(book.sections, book.title, book.full) is Some,
    ensures
        generated(seq![OutputType::Full], book, shared) == (match tree_of(
            book.sections,
            shared.options,
        ) {
            Err(e) => Err::<Seq<CollectedOutputView>, _>(GenError::Parse(e)),
            Ok(tree) => {
                let plan = full_plan(book.sections, book.title, book.full)->0;
                Ok(
                    seq![
                        CollectedOutputView {
                            path: plan.path,
                            book: BookView {
                                title: plan.title,
                                tree,
                                extra_files: shared.extra_files,
                                authors: shared.authors,
                                id: plan.id,
                            },
                            output: OutputView::Full,
                        },
                    ],
                )
            },
        }),
{
    let types = seq![OutputType::Full];
    let plan = full_plan(book.sections, book.title, book.full)->0;
    reveal_with_fuel(planned, 2);
    reveal_with_fuel(groups_tree, 2);
    reveal_with_fuel(outputs_built, 2);
    assert(!asks_for_chapters(types, 1));
    assert(planned(types, 1, book) == Ok::<_, PlanError>(
        (Seq::<OutputPlanView>::empty().push(plan), false),
    ));
    let plans = Seq::<OutputPlanView>::empty().push(plan);
    assert(plan.groups == seq![book.sections]);
    match tree_of(book.sections, shared.options) {
        Ok(tree) => {
            assert(Seq::<crate::bookir::nav::NavNodeView>::empty() + tree =~= tree);
            assert(groups_tree(plan.groups, 1, shared.options) == Ok::<_, ParseError>(tree));
            assert(outputs_built(plans, 1, shared)->Ok_0 =~= seq![output_of(plan, shared)->Ok_0]);
        },
        Err(e) => {},
    }
}

/// Builds every output that the configuration of a renderer asks of a book:
/// one document for each part, one for the whole book, or both, each with
/// the name of the file it is to be written to.
///
/// `sections` is the top level of the book, `title` the title of the book
/// where it has one; the extra files and the authors go into every output.
#[verifier::loop_isolation(false)]
pub fn gen_collected_output<C: Config>(
    sections: &Vec<BookItem>,
    config: &C,
    title: Option<&str>,
    authors: &Vec<String>,
    extra_files: &Vec<ExtraItem>,
    options: RichTextOptions,
) -> (r: Result<Vec<CollectedOutput>, GenError>)
    ensures
        match r {
            Ok(outputs) => generated(
                config.shared_settings().output_types(),
                Planning {
                    sections: sections@,
                    title: match title {
                        Some(t) => Some(t@),
                        None => None,
                    },
                    always: config.shared_settings().always_include@,
                    files: config.shared_settings().output_files.individual_files@,
                    full: config.shared_settings().output_files.full,
                },
                Shared {
                    extra_files: extra_views(extra_files@),
                    authors: text_views(authors@),
                    options,
                },
            ) == Ok::<_, GenError>(output_views(outputs@)),
            Err(e) => generated(
                config.shared_settings().output_types(),
                Planning {
                    sections: sections@,
                    title: match title {
                        Some(t) => Some(t@),
                        None => None,
                    },
                    always: config.shared_settings().always_include@,
                    files: config.shared_settings().output_files.individual_files@,
                    full: config.shared_settings().output_files.full,
                },
                Shared {
                    extra_files: extra_views(extra_files@),
                    authors: text_views(authors@),
                    options,
                },
            ) == Err::<Seq<CollectedOutputView>, _>(e),
        },
{
    let settings = config.shared();
    let ghost shared = Shared {
        extra_files: extra_views(extra_files@),
        authors: text_views(authors@),
        options,
    };
    let plans = match plan_outputs(sections, settings, title) {
        Err(e) => {
            return Err(GenError::Plan(e));
        },
        Ok(plans) => plans,
    };
    let ghost planned = plan_views(plans@);
    let mut outputs: Vec<CollectedOutput> = Vec::new();
    assert(output_views(outputs@) =~= Seq::<CollectedOutputView>::empty());
    let mut i: usize = 0;
    while i < plans.len()
        invariant
            i <= plans.len(),
            planned == plan_views(plans@),
            shared == (Shared {
                extra_files: extra_views(extra_files@),
                authors: text_views(authors@),
                options,
            }),
            outputs_built(planned, i as int, shared) == Ok::<_, ParseError>(
                output_views(outputs@),
            ),
        decreases plans.len() - i,
    {
        let plan = &plans[i];
        assert(planned[i as int] == plan@);
        match build_tree(plan, options) {
            Err(e) => {
                proof {
                    assert(outputs_built(planned, i + 1, shared) is Err);
                    lemma_outputs_error(planned, i + 1, planned.len() as int, shared);
                }
                return Err(GenError::Parse(e));
            },
            Ok(tree) => {
                let ghost was = output_views(outputs@);
                let output = CollectedOutput {
                    path: plan.path.clone(),
                    book: Book {
                        title: plan.title.clone(),
                        tree,
                        extra_files: clone_extra_files(extra_files),
                        authors: clone_texts(authors),
                        id: plan.id.clone(),
                    },
                    output: match &plan.output {
                        Output::Full => Output::Full,
                        Output::Part(id) => Output::Part(id.clone()),
                        Output::ByPartHead => Output::ByPartHead,
                        Output::ByPartTail => Output::ByPartTail,
                    },
                };
                outputs.push(output);
                assert(output_views(outputs@) =~= was.push(output@));
            },
        }
        i += 1;
    }
    Ok(outputs)
}


impl GenError {
    /// What the error says: what the error inside it says.
    pub open spec fn message(&self) -> Seq<char> {
        match self {
            GenError::Plan(e) => e.message(),
            GenError::Parse(e) => e.message(),
        }
    }

    /// What the error says.
    pub fn to_string(&self) -> (text: String)
        ensures
            text@ == self.message(),
    {
        match self {
            GenError::Plan(e) => e.to_string(),
            GenError::Parse(e) => e.to_string(),
        }
    }
}

} // verus!
