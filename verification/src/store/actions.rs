//! Changes that take several steps.

use vstd::prelude::*;
use vstd::string::*;

use super::{journal_goes_on, journal_starts, journalled, Error, TransactionStore};
use crate::model::{CategorySource, Timestamp, TransferSource};
use crate::text::{decimal_int, int_string};

verus! {

impl Error {
    /// The error in words.
    pub open spec fn words(self) -> Seq<char> {
        match self {
            Error::TransactionInTransfer(id) => "transaction "@ + decimal_int(id as int)
                + " is part of a transfer"@,
            Error::CategoryExists(path) => "category already exists: "@ + path@,
            Error::AccountNotFound(id) => "account not found: "@ + id@,
            Error::InvalidAccountPath(why) => "invalid account path: "@ + why@,
            Error::AccountExists(path) => "account already exists: "@ + path@,
            Error::InvalidDate(date) => "invalid date: "@ + date@,
            Error::ImportFailed(why) => "import failed: "@ + why@,
            Error::NoFreeId => "no free row id"@,
        }
    }

    pub fn message(&self) -> (text: String)
        ensures
            text@ == self.words(),
    {
        match self {
            Error::TransactionInTransfer(id) => {
                let mut m = "transaction ".to_owned();
                m.append(&int_string(*id));
                m.append(" is part of a transfer");
                m
            },
            Error::CategoryExists(path) => {
                let mut m = "category already exists: ".to_owned();
                m.append(path);
                m
            },
            Error::AccountNotFound(id) => {
                let mut m = "account not found: ".to_owned();
                m.append(id);
                m
            },
            Error::InvalidAccountPath(why) => {
                let mut m = "invalid account path: ".to_owned();
                m.append(why);
                m
            },
            Error::AccountExists(path) => {
                let mut m = "account already exists: ".to_owned();
                m.append(path);
                m
            },
            Error::InvalidDate(date) => {
                let mut m = "invalid date: ".to_owned();
                m.append(date);
                m
            },
            Error::ImportFailed(why) => {
                let mut m = "import failed: ".to_owned();
                m.append(why);
                m
            },
            Error::NoFreeId => "no free row id".to_owned(),
        }
    }
}

impl TransactionStore {
    /// The state after [`Self::categorise`]: the category is there, and where it
    /// is, the transaction is assigned to it.
    pub open spec fn categorise_leads_to(
        self,
        tx_id: i64,
        path: &str,
        now: Timestamp,
        result: Result<i64, Error>,
        next: TransactionStore,
    ) -> bool {
        exists|made: Result<i64, Error>, mid: TransactionStore|
            {
                &&& #[trigger] self.get_or_create_category_leads_to(path, now, made, mid)
                &&& match made {
                    Ok(id) => exists|set: Result<(), Error>|
                        {
                            &&& #[trigger] mid.set_category_leads_to(
                                tx_id,
                                id,
                                CategorySource::Manual,
                                true,
                                None,
                                now,
                                set,
                                next,
                            )
                            &&& match set {
                                Ok(_) => result == Ok::<i64, Error>(id),
                                Err(e) => result == Err::<i64, Error>(e),
                            }
                        },
                    Err(e) => result == Err::<i64, Error>(e) && next == mid,
                }
            }
    }

    /// Give a transaction a category by path, as the user's own choice.
    pub fn categorise(&mut self, tx_id: i64, path: &str, now: Timestamp) -> (result: Result<
        i64,
        Error,
    >)
        ensures
            old(self).categorise_leads_to(tx_id, path, now, result, *final(self)),
            journalled(*old(self), *final(self)),
            old(self)@.keyed() ==> final(self)@.keyed(),
            old(self)@.exclusive() ==> final(self)@.exclusive(),
    {
        let made = self.get_or_create_category(path, now);
        let ghost mid = *self;
        let ghost first = made;
        assert(old(self).get_or_create_category_leads_to(path, now, first, mid));
        let id: i64 = match made {
            Ok(id) => id,
            Err(e) => return Err(e),
        };
        let set = self.set_category(tx_id, id, CategorySource::Manual, true, None, now);
        proof {
            journal_goes_on(*old(self), mid, *self);
        }
        let ghost second = set;
        assert(mid.set_category_leads_to(
            tx_id,
            id,
            CategorySource::Manual,
            true,
            None,
            now,
            second,
            *self,
        ));
        match set {
            Ok(_) => Ok(id),
            Err(e) => Err(e),
        }
    }

    /// The state after [`Self::categorise_all`].
    pub open spec fn categorise_all_leads_to(
        self,
        ids: &Vec<i64>,
        path: &str,
        now: Timestamp,
        result: Result<usize, Error>,
        next: TransactionStore,
    ) -> bool {
        exists|made: Result<i64, Error>, mid: TransactionStore|
            {
                &&& #[trigger] self.get_or_create_category_leads_to(path, now, made, mid)
                &&& match made {
                    Ok(id) => mid.set_categories_leads_to(
                        ids,
                        id,
                        CategorySource::Manual,
                        true,
                        None,
                        now,
                        result,
                        next,
                    ),
                    Err(e) => result == Err::<usize, Error>(e) && next == mid,
                }
            }
    }

    /// Give many transactions a category by path, skipping transfer legs.
    pub fn categorise_all(&mut self, ids: &Vec<i64>, path: &str, now: Timestamp) -> (result: Result<
        usize,
        Error,
    >)
        ensures
            old(self).categorise_all_leads_to(ids, path, now, result, *final(self)),
            journalled(*old(self), *final(self)),
            old(self)@.keyed() ==> final(self)@.keyed(),
            old(self)@.exclusive() ==> final(self)@.exclusive(),
    {
        let made = self.get_or_create_category(path, now);
        let ghost mid = *self;
        let ghost first = made;
        assert(old(self).get_or_create_category_leads_to(path, now, first, mid));
        let id: i64 = match made {
            Ok(id) => id,
            Err(e) => return Err(e),
        };
        let result = self.set_categories(ids, id, CategorySource::Manual, true, None, now);
        proof {
            journal_goes_on(*old(self), mid, *self);
        }
        result
    }

    /// The state after deleting transfers, one after the other.
    pub open spec fn unlinked(self, ids: Seq<i64>, next: TransactionStore) -> bool
        decreases ids.len(),
    {
        if ids.len() == 0 {
            next == self
        } else {
            exists|mid: TransactionStore|
                self.unlinked(ids.drop_last(), mid) && #[trigger] mid.delete_transfer_leads_to(
                    ids.last(),
                    next,
                )
        }
    }

    fn unlink_all(&mut self, ids: &Vec<i64>)
        ensures
            old(self).unlinked(ids@, *final(self)),
            journalled(*old(self), *final(self)),
            old(self)@.keyed() ==> final(self)@.keyed(),
            old(self)@.exclusive() ==> final(self)@.exclusive(),
    {
        let mut i: usize = 0;
        proof {
            journal_starts(*self);
            assert(ids@.take(0) =~= Seq::empty());
        }
        while i < ids.len()
            invariant
                i <= ids@.len(),
                old(self).unlinked(ids@.take(i as int), *self),
                journalled(*old(self), *self),
                old(self)@.keyed() ==> self@.keyed(),
                old(self)@.exclusive() ==> self@.exclusive(),
            decreases ids@.len() - i,
        {
            let ghost before = *self;
            let ghost prefix = ids@.take(i + 1);
            assert(prefix.drop_last() =~= ids@.take(i as int));
            self.delete_transfer(ids[i]);
            proof {
                journal_goes_on(*old(self), before, *self);
                assert(before.delete_transfer_leads_to(prefix.last(), *self));
            }
            i += 1;
        }
        assert(ids@.take(i as int) =~= ids@);
    }

    /// The state after [`Self::recreate_transfer`].
    pub open spec fn recreate_transfer_leads_to(
        self,
        transfer_ids: &Vec<i64>,
        from_id: i64,
        to_id: i64,
        now: Timestamp,
        result: Result<i64, Error>,
        next: TransactionStore,
    ) -> bool {
        exists|mid: TransactionStore|
            self.unlinked(transfer_ids@, mid) && #[trigger] mid.create_transfer_leads_to(
                from_id,
                to_id,
                TransferSource::Manual,
                true,
                None,
                now,
                result,
                next,
            )
    }

    /// Break transfers, then link two transactions as the user's own choice.
    pub fn recreate_transfer(
        &mut self,
        transfer_ids: &Vec<i64>,
        from_id: i64,
        to_id: i64,
        now: Timestamp,
    ) -> (result: Result<i64, Error>)
        ensures
            old(self).recreate_transfer_leads_to(
                transfer_ids,
                from_id,
                to_id,
                now,
                result,
                *final(self),
            ),
            journalled(*old(self), *final(self)),
            old(self)@.keyed() ==> final(self)@.keyed(),
            old(self)@.exclusive() ==> final(self)@.exclusive(),
    {
        self.unlink_all(transfer_ids);
        let ghost mid = *self;
        let result = self.create_transfer(from_id, to_id, TransferSource::Manual, true, None, now);
        proof {
            journal_goes_on(*old(self), mid, *self);
            assert(mid.create_transfer_leads_to(
                from_id,
                to_id,
                TransferSource::Manual,
                true,
                None,
                now,
                result,
                *self,
            ));
        }
        result
    }

    /// The state after confirming categories, one after the other.
    pub open spec fn categories_confirmed(
        self,
        ids: Seq<i64>,
        now: Timestamp,
        next: TransactionStore,
    ) -> bool
        decreases ids.len(),
    {
        if ids.len() == 0 {
            next == self
        } else {
            exists|mid: TransactionStore|
                self.categories_confirmed(ids.drop_last(), now, mid) && #[trigger]
                mid.confirm_category_leads_to(ids.last(), now, next)
        }
    }

    /// Confirm the categories of many transactions.
    pub fn confirm_categories(&mut self, ids: &Vec<i64>, now: Timestamp)
        requires
            old(self)@.keyed(),
        ensures
            old(self).categories_confirmed(ids@, now, *final(self)),
            journalled(*old(self), *final(self)),
            final(self)@.keyed(),
            old(self)@.exclusive() ==> final(self)@.exclusive(),
    {
        let mut i: usize = 0;
        proof {
            journal_starts(*self);
            assert(ids@.take(0) =~= Seq::empty());
        }
        while i < ids.len()
            invariant
                i <= ids@.len(),
                old(self).categories_confirmed(ids@.take(i as int), now, *self),
                journalled(*old(self), *self),
                self@.keyed(),
                old(self)@.exclusive() ==> self@.exclusive(),
            decreases ids@.len() - i,
        {
            let ghost before = *self;
            let ghost prefix = ids@.take(i + 1);
            assert(prefix.drop_last() =~= ids@.take(i as int));
            self.confirm_category(ids[i], now);
            proof {
                journal_goes_on(*old(self), before, *self);
                assert(before.confirm_category_leads_to(prefix.last(), now, *self));
            }
            i += 1;
        }
        assert(ids@.take(i as int) =~= ids@);
    }

    /// The state after confirming transfers, one after the other.
    pub open spec fn transfers_confirmed(self, ids: Seq<i64>, next: TransactionStore) -> bool
        decreases ids.len(),
    {
        if ids.len() == 0 {
            next == self
        } else {
            exists|mid: TransactionStore|
                self.transfers_confirmed(ids.drop_last(), mid) && #[trigger]
                mid.confirm_transfer_leads_to(ids.last(), next)
        }
    }

    /// Confirm many transfers.
    pub fn confirm_transfers(&mut self, ids: &Vec<i64>)
        requires
            old(self)@.keyed(),
        ensures
            old(self).transfers_confirmed(ids@, *final(self)),
            journalled(*old(self), *final(self)),
            final(self)@.keyed(),
            old(self)@.exclusive() ==> final(self)@.exclusive(),
    {
        let mut i: usize = 0;
        proof {
            journal_starts(*self);
            assert(ids@.take(0) =~= Seq::empty());
        }
        while i < ids.len()
            invariant
                i <= ids@.len(),
                old(self).transfers_confirmed(ids@.take(i as int), *self),
                journalled(*old(self), *self),
                self@.keyed(),
                old(self)@.exclusive() ==> self@.exclusive(),
            decreases ids@.len() - i,
        {
            let ghost before = *self;
            let ghost prefix = ids@.take(i + 1);
            assert(prefix.drop_last() =~= ids@.take(i as int));
            self.confirm_transfer(ids[i]);
            proof {
                journal_goes_on(*old(self), before, *self);
                assert(before.confirm_transfer_leads_to(prefix.last(), *self));
            }
            i += 1;
        }
        assert(ids@.take(i as int) =~= ids@);
    }

    /// The state after [`Self::assign_filter`].
    pub open spec fn assign_filter_leads_to(
        self,
        filter_id: i64,
        assigned: &Option<String>,
        now: Timestamp,
        result: Result<(), Error>,
        next: TransactionStore,
    ) -> bool {
        match assigned {
            Some(path) => exists|made: Result<i64, Error>, mid: TransactionStore|
                {
                    &&& #[trigger] self.get_or_create_category_at(path@, now, made, mid)
                    &&& match made {
                        Ok(id) => result is Ok && mid.set_filter_category_leads_to(
                            filter_id,
                            Some(id),
                            next,
                        ),
                        Err(e) => result == Err::<(), Error>(e) && next == mid,
                    }
                },
            None => result is Ok && self.set_filter_category_leads_to(filter_id, None, next),
        }
    }

    /// The state after [`Self::get_or_create_category`] at a path.
    pub open spec fn get_or_create_category_at(
        self,
        path: Seq<char>,
        now: Timestamp,
        result: Result<i64, Error>,
        next: TransactionStore,
    ) -> bool {
        exists|text: &str|
            text@ == path && #[trigger] self.get_or_create_category_leads_to(
                text,
                now,
                result,
                next,
            )
    }

    /// Set the category a filter applies, by path, or take it away.
    pub fn assign_filter(&mut self, filter_id: i64, assigned: &Option<String>, now: Timestamp) -> (
    result: Result<(), Error>)
        requires
            old(self)@.keyed(),
        ensures
            old(self).assign_filter_leads_to(filter_id, assigned, now, result, *final(self)),
            journalled(*old(self), *final(self)),
            final(self)@.keyed(),
            old(self)@.exclusive() ==> final(self)@.exclusive(),
    {
        match assigned {
            Some(path) => {
                let text = path.as_str();
                let made = self.get_or_create_category(text, now);
                let ghost mid = *self;
                let ghost first = made;
                proof {
                    assert(old(self).get_or_create_category_leads_to(text, now, first, mid));
                    assert(old(self).get_or_create_category_at(path@, now, first, mid));
                }
                let id: i64 = match made {
                    Ok(id) => id,
                    Err(e) => return Err(e),
                };
                self.set_filter_category(filter_id, Some(id));
                proof {
                    journal_goes_on(*old(self), mid, *self);
                }
                Ok(())
            },
            None => {
                self.set_filter_category(filter_id, None);
                Ok(())
            },
        }
    }
}

} // verus!
