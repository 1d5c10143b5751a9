//! Whole documents: export, restore and import. A document is checked before
//! any of it is applied, so that a bad one changes nothing.

use crate::error::{AppError, ErrorView};
use crate::outside::{format_stamp, stamp_text};
use crate::repository::merge::{
    count_outcome, emails_identify, lemma_merge_accounts, lemma_merge_keeps_identifiers,
    lemma_merge_keeps_tag_sets, lemma_merge_matched_by_id, lemma_merge_tags_unique,
    merge_account, merge_accounts, merge_tag_list, merge_tags, MergeOutcome,
};
use crate::repository::model::{
    has_account, names_unique, tags_are_sets, valid_config, AppConfig, AppConfigView,
};
use crate::repository::names::{add_names, lemma_add_names_unique, push_names};
use crate::repository::store::{
    all_distinct, check_config, invalid_document, invalid_document_text, DataStore,
};
use vstd::prelude::*;
use vstd::string::StringExecFns;

verus! {

/// What came of reading a document from a file.
#[derive(Debug, PartialEq, Eq)]
pub enum LoadedDocument {
    /// There is no such file.
    Missing,
    /// The file's content is no document; the text says why.
    Unreadable(String),
    /// The document that the file holds.
    Decoded(AppConfig),
}

/// What came of reading a document, as plain values.
pub enum LoadedView {
    Missing,
    Unreadable(Seq<char>),
    Decoded(AppConfigView),
}

impl View for LoadedDocument {
    type V = LoadedView;

    open spec fn view(&self) -> LoadedView {
        match self {
            LoadedDocument::Missing => LoadedView::Missing,
            LoadedDocument::Unreadable(why) => LoadedView::Unreadable(why@),
            LoadedDocument::Decoded(config) => LoadedView::Decoded(config@),
        }
    }
}

/// How many incoming accounts were added, replaced a stored account, or
/// were there already.
#[derive(Clone, Copy, Debug, PartialEq, Eq, Structural)]
pub struct ImportResult {
    pub added: usize,
    pub updated: usize,
    pub skipped: usize,
}

/// The detail of the error for a file that is not there.
pub open spec fn missing_file() -> Seq<char> {
    "file not found"@
}

/// The store's document after `doc` was merged into it: the accounts
/// reconciled one by one, the groups and tags of new names added, the
/// settings and the log as they were.
pub open spec fn merged_document(current: AppConfigView, doc: AppConfigView) -> AppConfigView {
    AppConfigView {
        accounts: merge_accounts(current.accounts, doc.accounts),
        groups: add_names(current.groups, doc.groups),
        tags: merge_tags(current.tags, doc.tags),
        settings: current.settings,
        logs: current.logs,
    }
}

/// Whether `doc` can be imported: by merging where none of its accounts
/// holds a tag twice; in place of the store's document where it is valid.
pub open spec fn import_accepts(doc: AppConfigView, merge: bool) -> bool {
    if merge {
        tags_are_sets(doc.accounts)
    } else {
        valid_config(doc)
    }
}

/// The store's document after `doc` was imported.
pub open spec fn import_spec(current: AppConfigView, doc: AppConfigView, merge: bool) -> AppConfigView {
    if merge {
        merged_document(current, doc)
    } else {
        doc
    }
}

/// What an import reports.
pub open spec fn import_counts(current: AppConfigView, doc: AppConfigView, merge: bool) -> (
    nat,
    nat,
    nat,
) {
    if merge {
        (
            count_outcome(current.accounts, doc.accounts, MergeOutcome::Added),
            count_outcome(current.accounts, doc.accounts, MergeOutcome::Updated),
            count_outcome(current.accounts, doc.accounts, MergeOutcome::Skipped),
        )
    } else {
        (doc.accounts.len(), 0, 0)
    }
}

/// The error for what cannot be applied.
pub open spec fn load_error(loaded: LoadedView) -> ErrorView {
    match loaded {
        LoadedView::Missing => ErrorView::FileOperation(missing_file()),
        LoadedView::Unreadable(why) => ErrorView::Serialization(why),
        LoadedView::Decoded(_) => ErrorView::Serialization(invalid_document()),
    }
}

/// The pattern under which a backup's time is written: year, month and day,
/// then hour, minute and second, in digits.
pub open spec fn stamp_pattern() -> Seq<char> {
    "%Y%m%d_%H%M%S"@
}

/// The name of a backup file from the date and time of its making:
/// `backup_`, the date and time, `.json`.
pub open spec fn backup_name_spec(stamp: Option<Seq<char>>) -> Option<Seq<char>> {
    match stamp {
        Some(stamp) => Some("backup_"@ + stamp + ".json"@),
        None => None,
    }
}

/// The name of the backup file made at the instant `millis`, in milliseconds
/// since the epoch: the date and the time are written in UTC as eight and
/// six digits with `_` between them. There is no name for an instant that
/// the calendar cannot represent.
pub fn backup_file_name(millis: i64) -> (name: Option<String>)
    ensures
        name.deep_view() == backup_name_spec(stamp_text(millis, stamp_pattern())),
{
    backup_name(format_stamp(millis, "%Y%m%d_%H%M%S"))
}

/// The name of a backup file from the date and time of its making.
pub fn backup_name(stamp: Option<String>) -> (name: Option<String>)
    ensures
        name.deep_view() == backup_name_spec(stamp.deep_view()),
{
    match stamp {
        Some(stamp) => {
            let name = String::from_str("backup_").concat(stamp.as_str()).concat(".json");
            Some(name)
        },
        None => None,
    }
}

impl DataStore {
    /// A copy of the whole document, as a backup or an export holds it.
    pub fn export_data(&self) -> (document: AppConfig)
        ensures
            document@ == self@,
            valid_config(document@),
    {
        self.config().clone()
    }

    /// Replaces the whole document by the one that was loaded. Where none
    /// was loaded, or the loaded one is not valid, nothing changes.
    pub fn restore_from_backup(&mut self, loaded: LoadedDocument) -> (r: Result<(), AppError>)
        ensures
            r is Ok <==> (loaded@ matches LoadedView::Decoded(doc) && valid_config(doc)),
            match r {
                Ok(_) => final(self)@ == loaded@->Decoded_0,
                Err(e) => final(self)@ == old(self)@ && e@ == load_error(loaded@),
            },
    {
        match loaded {
            LoadedDocument::Missing => Err(
                AppError::FileOperation(String::from_str("file not found")),
            ),
            LoadedDocument::Unreadable(why) => Err(AppError::Serialization(why)),
            LoadedDocument::Decoded(document) => {
                if check_config(&document) {
                    let _ = self.take();
                    self.put(document);
                    Ok(())
                } else {
                    Err(AppError::Serialization(invalid_document_text()))
                }
            },
        }
    }

    /// Imports the document that was loaded: merges it into the store's
    /// document, or puts it in its place. Merging reconciles each incoming
    /// account with the stored account of its identifier, else with the
    /// first of its email, and adds it where there is neither. Where no
    /// document was loaded, or the one that is to replace the store's is not
    /// valid, nothing changes.
    pub fn import_data(&mut self, loaded: LoadedDocument, merge: bool) -> (r: Result<
        ImportResult,
        AppError,
    >)
        ensures
            r is Ok <==> (loaded@ matches LoadedView::Decoded(doc) && import_accepts(doc, merge)),
            match r {
                Ok(result) => final(self)@ == import_spec(old(self)@, loaded@->Decoded_0, merge) && (
                    result.added as nat,
                    result.updated as nat,
                    result.skipped as nat,
                ) == import_counts(old(self)@, loaded@->Decoded_0, merge),
                Err(e) => final(self)@ == old(self)@ && e@ == load_error(loaded@),
            },
    {
        match loaded {
            LoadedDocument::Missing => Err(
                AppError::FileOperation(String::from_str("file not found")),
            ),
            LoadedDocument::Unreadable(why) => Err(AppError::Serialization(why)),
            LoadedDocument::Decoded(document) => {
                if merge {
                    self.merge_document(&document)
                } else if check_config(&document) {
                    let added = document.accounts.len();
                    let _ = self.take();
                    self.put(document);
                    Ok(ImportResult { added, updated: 0, skipped: 0 })
                } else {
                    Err(AppError::Serialization(invalid_document_text()))
                }
            },
        }
    }

    /// Merges `document` into the store's document. A document with an
    /// account that holds a tag twice is refused, and nothing changes.
    pub fn merge_document(&mut self, document: &AppConfig) -> (r: Result<ImportResult, AppError>)
        ensures
            r is Ok <==> tags_are_sets(document@.accounts),
            match r {
                Ok(result) => final(self)@ == merged_document(old(self)@, document@) && (
                    result.added as nat,
                    result.updated as nat,
                    result.skipped as nat,
                ) == import_counts(old(self)@, document@, true),
                Err(e) => final(self)@ == old(self)@ && e@ == ErrorView::Serialization(
                    invalid_document(),
                ),
            },
    {
        let ghost incoming = document.accounts.deep_view();
        let mut t: usize = 0;
        while t < document.accounts.len()
            invariant
                t <= document.accounts.len(),
                incoming == document.accounts.deep_view(),
                forall|a: int| 0 <= a < t ==> names_unique((#[trigger] incoming[a]).tags),
            decreases document.accounts.len() - t,
        {
            if !all_distinct(&document.accounts[t].tags) {
                proof {
                    assert(!names_unique(incoming[t as int].tags));
                }
                return Err(AppError::Serialization(invalid_document_text()));
            }
            t = t + 1;
        }
        let mut config = self.take();
        let ghost before = config@;
        let mut added: usize = 0;
        let mut updated: usize = 0;
        let mut skipped: usize = 0;
        let mut i: usize = 0;
        while i < document.accounts.len()
            invariant
                i <= document.accounts.len(),
                incoming == document.accounts.deep_view(),
                valid_config(before),
                config.accounts.deep_view() == merge_accounts(
                    before.accounts,
                    incoming.take(i as int),
                ),
                added == count_outcome(before.accounts, incoming.take(i as int), MergeOutcome::Added),
                updated == count_outcome(
                    before.accounts,
                    incoming.take(i as int),
                    MergeOutcome::Updated,
                ),
                skipped == count_outcome(
                    before.accounts,
                    incoming.take(i as int),
                    MergeOutcome::Skipped,
                ),
                added + updated + skipped == i,
                config@ == (AppConfigView { accounts: config.accounts.deep_view(), ..before }),
            decreases document.accounts.len() - i,
        {
            proof {
                let next = incoming.take(i as int + 1);
                assert(next.drop_last() =~= incoming.take(i as int));
                assert(next.last() == document.accounts@[i as int]@);
            }
            match merge_account(&mut config.accounts, document.accounts[i].clone()) {
                MergeOutcome::Added => {
                    added = added + 1;
                },
                MergeOutcome::Updated => {
                    updated = updated + 1;
                },
                MergeOutcome::Skipped => {
                    skipped = skipped + 1;
                },
            }
            i = i + 1;
        }
        proof {
            assert(incoming.take(document.accounts.len() as int) =~= incoming);
        }
        push_names(&mut config.groups, &document.groups);
        merge_tag_list(&mut config.tags, &document.tags);
        proof {
            lemma_merge_valid(before, document@);
        }
        self.put(config);
        Ok(ImportResult { added, updated, skipped })
    }
}

/// A document that was exported and is imported in place of the store's
/// gives back the exporting store's accounts, groups, tags and settings,
/// whatever the importing store held.
pub proof fn lemma_export_import_round_trip(exported: AppConfigView, current: AppConfigView)
    requires
        valid_config(exported),
    ensures
        import_accepts(exported, false),
        import_accepts(exported, true),
        import_spec(current, exported, false).accounts == exported.accounts,
        import_spec(current, exported, false).groups == exported.groups,
        import_spec(current, exported, false).tags == exported.tags,
        import_spec(current, exported, false).settings == exported.settings,
{
}

/// Merging a document whose accounts all have the identifier of a stored
/// account adds no account and moves none.
pub proof fn lemma_merge_known_accounts(current: AppConfigView, doc: AppConfigView)
    requires
        valid_config(current),
        forall|i: int|
            0 <= i < doc.accounts.len() ==> has_account(
                current.accounts,
                (#[trigger] doc.accounts[i]).id,
            ),
    ensures
        import_spec(current, doc, true).accounts.len() == current.accounts.len(),
        import_counts(current, doc, true).0 == 0,
{
    lemma_merge_matched_by_id(current.accounts, doc.accounts);
}

/// Merging the same document a second time leaves as many accounts as
/// merging it once, where the first merge left every incoming identifier in
/// the store: where the accounts are matched by identifier.
pub proof fn lemma_merge_twice_same_count(current: AppConfigView, doc: AppConfigView)
    requires
        valid_config(current),
        forall|i: int|
            0 <= i < doc.accounts.len() ==> has_account(
                import_spec(current, doc, true).accounts,
                (#[trigger] doc.accounts[i]).id,
            ),
    ensures
        import_spec(import_spec(current, doc, true), doc, true).accounts.len() == import_spec(
            current,
            doc,
            true,
        ).accounts.len(),
{
    lemma_merge_accounts(current.accounts, doc.accounts);
    lemma_merge_matched_by_id(merge_accounts(current.accounts, doc.accounts), doc.accounts);
}

/// Merging the same document a second time leaves as many accounts as
/// merging it once, where an email stands for one identifier throughout
/// the store and the document.
pub proof fn lemma_merge_is_idempotent_in_count(current: AppConfigView, doc: AppConfigView)
    requires
        valid_config(current),
        emails_identify(current.accounts, doc.accounts),
    ensures
        import_spec(import_spec(current, doc, true), doc, true).accounts.len() == import_spec(
            current,
            doc,
            true,
        ).accounts.len(),
{
    lemma_merge_keeps_identifiers(current.accounts, doc.accounts);
    lemma_merge_twice_same_count(current, doc);
}

/// A merge leaves a valid document valid.
pub proof fn lemma_merge_valid(current: AppConfigView, doc: AppConfigView)
    requires
        valid_config(current),
        tags_are_sets(doc.accounts),
    ensures
        valid_config(merged_document(current, doc)),
{
    lemma_merge_accounts(current.accounts, doc.accounts);
    lemma_merge_keeps_tag_sets(current.accounts, doc.accounts);
    lemma_add_names_unique(current.groups, doc.groups);
    lemma_merge_tags_unique(current.tags, doc.tags);
}

} // verus!
