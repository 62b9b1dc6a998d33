//! What a restore does to a database: the statements as steps, the effect of
//! each step, and the law that the database ends as the snapshot.

use vstd::prelude::*;

use crate::pool::{copies, creations, drops, own_objects, restore_statements, SchemaObject, Step};

verus! {

/// One statement of a restore.
pub struct RestoreStep {
    pub step: Step,
    pub object: SchemaObject,
}

impl RestoreStep {
    /// The statement's text.
    pub open spec fn text(self) -> Seq<char> {
        match self.step {
            Step::Drop => self.object.drop_statement()->0,
            Step::Create => self.object.sql@,
            Step::Copy => self.object.copy_statement(),
        }
    }
}

/// What an object is found by: its kind and its name.
pub open spec fn object_key(object: SchemaObject) -> (Seq<char>, Seq<char>) {
    (object.object_type@, object.name@)
}

/// An object that a database holds: the statement that creates it, and its rows.
pub struct HeldObject<R> {
    pub sql: Seq<char>,
    pub rows: Seq<R>,
}

/// A database: the objects that stand for themselves, by kind and name.
pub struct Database<R> {
    pub objects: Map<(Seq<char>, Seq<char>), HeldObject<R>>,
}

impl<R> Database<R> {
    /// Whether the schema of the database lists the given objects: no two of one
    /// kind share a name, and only tables have rows.
    pub open spec fn lists(self, objects: Seq<SchemaObject>) -> bool {
        &&& distinct(own_objects(objects))
        &&& forall|key: (Seq<char>, Seq<char>)| #[trigger]
            self.objects.contains_key(key) <==> named(own_objects(objects), key)
        &&& forall|k: int|
            0 <= k < own_objects(objects).len() ==> {
                let object = #[trigger] own_objects(objects)[k];
                &&& self.objects[object_key(object)].sql == object.sql@
                &&& !object.table() ==> self.objects[object_key(object)].rows.len() == 0
            }
    }

    /// What one step makes of the database: a drop takes the object away with
    /// its rows, a creation adds it without rows, a copy adds the rows that the
    /// snapshot has.
    pub open spec fn after_step(self, step: RestoreStep, snapshot: Database<R>) -> Database<R> {
        let key = object_key(step.object);
        match step.step {
            Step::Drop => Database { objects: self.objects.remove(key) },
            Step::Create => Database {
                objects: self.objects.insert(
                    key,
                    HeldObject { sql: step.object.sql@, rows: Seq::empty() },
                ),
            },
            Step::Copy => Database {
                objects: self.objects.insert(
                    key,
                    HeldObject {
                        sql: self.objects[key].sql,
                        rows: self.objects[key].rows + snapshot.objects[key].rows,
                    },
                ),
            },
        }
    }

    /// What steps make of the database, one after the other.
    pub open spec fn after(self, steps: Seq<RestoreStep>, snapshot: Database<R>) -> Database<R>
        decreases steps.len(),
    {
        if steps.len() == 0 {
            self
        } else {
            self.after(steps.drop_last(), snapshot).after_step(steps.last(), snapshot)
        }
    }
}

/// Whether no two objects of one kind share a name.
pub open spec fn distinct(objects: Seq<SchemaObject>) -> bool {
    forall|i: int, j: int|
        0 <= i < j < objects.len() ==> object_key(#[trigger] objects[i]) != object_key(
            #[trigger] objects[j],
        )
}

/// Whether one of the objects has a kind and name.
pub open spec fn named(objects: Seq<SchemaObject>, key: (Seq<char>, Seq<char>)) -> bool {
    exists|k: int| 0 <= k < objects.len() && object_key(#[trigger] objects[k]) == key
}

/// Whether one of the objects that are tables, or of those that are not, has a
/// kind and name.
pub open spec fn named_among(
    objects: Seq<SchemaObject>,
    tables: bool,
    key: (Seq<char>, Seq<char>),
) -> bool {
    exists|k: int|
        0 <= k < objects.len() && object_key(#[trigger] objects[k]) == key && objects[k].table()
            == tables
}

/// One step for each object that is a table, or for each that is not, in order;
/// no drop for an object of a kind that cannot be dropped.
pub open spec fn phase(objects: Seq<SchemaObject>, step: Step, tables: bool) -> Seq<RestoreStep>
    decreases objects.len(),
{
    if objects.len() == 0 {
        Seq::empty()
    } else {
        let before = phase(objects.drop_last(), step, tables);
        let object = objects.last();
        if object.table() == tables && (step == Step::Drop ==> object.drop_statement() is Some) {
            before.push(RestoreStep { step, object })
        } else {
            before
        }
    }
}

/// The steps of a restore, in the order in which they are executed.
pub open spec fn restore_steps(snapshot: Seq<SchemaObject>, live: Seq<SchemaObject>) -> Seq<
    RestoreStep,
> {
    let old = own_objects(live);
    let new = own_objects(snapshot);
    phase(old, Step::Drop, false) + phase(old, Step::Drop, true) + phase(new, Step::Create, true)
        + phase(new, Step::Copy, true) + phase(new, Step::Create, false)
}

/// Texts of steps.
pub open spec fn step_texts(steps: Seq<RestoreStep>) -> Seq<Seq<char>> {
    steps.map_values(|step: RestoreStep| step.text())
}

proof fn lemma_phase_texts(objects: Seq<SchemaObject>, tables: bool)
    ensures
        step_texts(phase(objects, Step::Drop, tables)) == drops(objects, tables),
        step_texts(phase(objects, Step::Create, tables)) == creations(objects, tables),
        tables ==> step_texts(phase(objects, Step::Copy, tables)) == copies(objects),
    decreases objects.len(),
{
    if objects.len() > 0 {
        lemma_phase_texts(objects.drop_last(), tables);
    }
    assert(step_texts(phase(objects, Step::Drop, tables)) =~= drops(objects, tables));
    assert(step_texts(phase(objects, Step::Create, tables)) =~= creations(objects, tables));
    if tables {
        assert(step_texts(phase(objects, Step::Copy, tables)) =~= copies(objects));
    }
}

/// The statements of a restore are the texts of its steps.
pub proof fn law_statements_are_the_steps(snapshot: Seq<SchemaObject>, live: Seq<SchemaObject>)
    ensures
        restore_statements(snapshot, live) == step_texts(restore_steps(snapshot, live)),
{
    let old = own_objects(live);
    let new = own_objects(snapshot);
    lemma_phase_texts(old, false);
    lemma_phase_texts(old, true);
    lemma_phase_texts(new, false);
    lemma_phase_texts(new, true);
    assert(restore_statements(snapshot, live) =~= step_texts(restore_steps(snapshot, live)));
}

proof fn lemma_after_both<R>(
    database: Database<R>,
    a: Seq<RestoreStep>,
    b: Seq<RestoreStep>,
    snapshot: Database<R>,
)
    ensures
        database.after(a + b, snapshot) == database.after(a, snapshot).after(b, snapshot),
    decreases b.len(),
{
    if b.len() == 0 {
        assert(a + b =~= a);
    } else {
        lemma_after_both(database, a, b.drop_last(), snapshot);
        assert((a + b).drop_last() =~= a + b.drop_last());
    }
}

proof fn lemma_named_among(objects: Seq<SchemaObject>, tables: bool, key: (Seq<char>, Seq<char>))
    requires
        objects.len() > 0,
    ensures
        named_among(objects, tables, key) == (named_among(objects.drop_last(), tables, key) || (
        object_key(objects.last()) == key && objects.last().table() == tables)),
{
    let fewer = objects.drop_last();
    if named_among(fewer, tables, key) {
        let k = choose|k: int|
            0 <= k < fewer.len() && object_key(#[trigger] fewer[k]) == key && fewer[k].table()
                == tables;
        assert(object_key(objects[k]) == key);
    }
    if named_among(objects, tables, key) {
        let k = choose|k: int|
            0 <= k < objects.len() && object_key(#[trigger] objects[k]) == key
                && objects[k].table() == tables;
        if k < fewer.len() {
            assert(object_key(fewer[k]) == key);
        }
    }
}

proof fn lemma_after_drops<R>(
    database: Database<R>,
    objects: Seq<SchemaObject>,
    tables: bool,
    snapshot: Database<R>,
)
    requires
        forall|k: int|
            0 <= k < objects.len() ==> (#[trigger] objects[k]).drop_statement() is Some,
    ensures
        forall|key: (Seq<char>, Seq<char>)| #[trigger]
            database.after(phase(objects, Step::Drop, tables), snapshot).objects.contains_key(key)
                <==> database.objects.contains_key(key) && !named_among(objects, tables, key),
    decreases objects.len(),
{
    if objects.len() > 0 {
        let fewer = objects.drop_last();
        assert forall|k: int| 0 <= k < fewer.len() implies (
        #[trigger] fewer[k]).drop_statement() is Some by {
            assert(fewer[k] == objects[k]);
        }
        lemma_after_drops(database, fewer, tables, snapshot);
        assert(objects[objects.len() - 1].drop_statement() is Some);
        let steps = phase(objects, Step::Drop, tables);
        if objects.last().table() == tables {
            assert(steps.drop_last() =~= phase(fewer, Step::Drop, tables));
        }
        assert forall|key: (Seq<char>, Seq<char>)| #[trigger]
            database.after(steps, snapshot).objects.contains_key(key) <==> (
        database.objects.contains_key(key) && !named_among(objects, tables, key)) by {
            lemma_named_among(objects, tables, key);
            assert(database.after(
                phase(fewer, Step::Drop, tables),
                snapshot,
            ).objects.contains_key(key) <==> database.objects.contains_key(key) && !named_among(
                fewer,
                tables,
                key,
            ));
        }
    }
}

proof fn lemma_after_creations<R>(
    database: Database<R>,
    objects: Seq<SchemaObject>,
    tables: bool,
    snapshot: Database<R>,
)
    requires
        distinct(objects),
    ensures
        ({
            let next = database.after(phase(objects, Step::Create, tables), snapshot).objects;
            &&& forall|key: (Seq<char>, Seq<char>)| #[trigger]
                next.contains_key(key) <==> database.objects.contains_key(key) || named_among(
                    objects,
                    tables,
                    key,
                )
            &&& forall|key: (Seq<char>, Seq<char>)|
                !named_among(objects, tables, key) ==> #[trigger] next[key]
                    == database.objects[key]
            &&& forall|k: int|
                0 <= k < objects.len() && (#[trigger] objects[k]).table() == tables
                    ==> next[object_key(objects[k])] == (HeldObject::<R> {
                    sql: objects[k].sql@,
                    rows: Seq::empty(),
                })
        }),
    decreases objects.len(),
{
    if objects.len() > 0 {
        let fewer = objects.drop_last();
        assert forall|i: int, j: int| 0 <= i < j < fewer.len() implies object_key(
            #[trigger] fewer[i],
        ) != object_key(#[trigger] fewer[j]) by {
            assert(fewer[i] == objects[i] && fewer[j] == objects[j]);
        }
        lemma_after_creations(database, fewer, tables, snapshot);
        let steps = phase(objects, Step::Create, tables);
        let before = database.after(phase(fewer, Step::Create, tables), snapshot).objects;
        let next = database.after(steps, snapshot).objects;
        if objects.last().table() == tables {
            assert(steps.drop_last() =~= phase(fewer, Step::Create, tables));
        }
        assert forall|key: (Seq<char>, Seq<char>)| #[trigger] next.contains_key(key) <==> (
        database.objects.contains_key(key) || named_among(objects, tables, key)) by {
            lemma_named_among(objects, tables, key);
            assert(before.contains_key(key) <==> database.objects.contains_key(key) || named_among(
                fewer,
                tables,
                key,
            ));
        }
        assert forall|key: (Seq<char>, Seq<char>)|
            !named_among(objects, tables, key) implies #[trigger] next[key]
            == database.objects[key] by {
            lemma_named_among(objects, tables, key);
            assert(before[key] == database.objects[key]);
        }
        assert forall|k: int|
            0 <= k < objects.len() && (#[trigger] objects[k]).table() == tables implies next[object_key(
            objects[k],
        )] == (HeldObject::<R> { sql: objects[k].sql@, rows: Seq::empty() }) by {
            if k < fewer.len() {
                assert(fewer[k] == objects[k]);
                assert(object_key(objects[k]) != object_key(objects[objects.len() - 1]));
            }
        }
    }
}

proof fn lemma_after_copies<R>(
    database: Database<R>,
    objects: Seq<SchemaObject>,
    snapshot: Database<R>,
)
    requires
        distinct(objects),
        forall|k: int|
            0 <= k < objects.len() && (#[trigger] objects[k]).table()
                ==> database.objects.contains_key(object_key(objects[k])),
    ensures
        ({
            let next = database.after(phase(objects, Step::Copy, true), snapshot).objects;
            &&& forall|key: (Seq<char>, Seq<char>)| #[trigger]
                next.contains_key(key) <==> database.objects.contains_key(key)
            &&& forall|key: (Seq<char>, Seq<char>)|
                !named_among(objects, true, key) ==> #[trigger] next[key] == database.objects[key]
            &&& forall|k: int|
                0 <= k < objects.len() && (#[trigger] objects[k]).table() ==> next[object_key(
                    objects[k],
                )] == (HeldObject::<R> {
                    sql: database.objects[object_key(objects[k])].sql,
                    rows: database.objects[object_key(objects[k])].rows
                        + snapshot.objects[object_key(objects[k])].rows,
                })
        }),
    decreases objects.len(),
{
    if objects.len() > 0 {
        let fewer = objects.drop_last();
        let last = objects[objects.len() - 1];
        assert forall|i: int, j: int| 0 <= i < j < fewer.len() implies object_key(
            #[trigger] fewer[i],
        ) != object_key(#[trigger] fewer[j]) by {
            assert(fewer[i] == objects[i] && fewer[j] == objects[j]);
        }
        assert forall|k: int| 0 <= k < fewer.len() && (#[trigger] fewer[k]).table() implies database.objects.contains_key(
        object_key(fewer[k])) by {
            assert(fewer[k] == objects[k]);
        }
        lemma_after_copies(database, fewer, snapshot);
        let steps = phase(objects, Step::Copy, true);
        let before = database.after(phase(fewer, Step::Copy, true), snapshot).objects;
        let next = database.after(steps, snapshot).objects;
        if last.table() {
            assert(steps.drop_last() =~= phase(fewer, Step::Copy, true));
            if named_among(fewer, true, object_key(last)) {
                let k = choose|k: int|
                    0 <= k < fewer.len() && object_key(#[trigger] fewer[k]) == object_key(last)
                        && fewer[k].table() == true;
                assert(fewer[k] == objects[k]);
                assert(false);
            }
            assert(before[object_key(last)] == database.objects[object_key(last)]);
        }
        assert forall|key: (Seq<char>, Seq<char>)| #[trigger] next.contains_key(key) <==> (
        database.objects.contains_key(key)) by {
            assert(before.contains_key(key) <==> database.objects.contains_key(key));
        }
        assert forall|key: (Seq<char>, Seq<char>)|
            !named_among(objects, true, key) implies #[trigger] next[key]
            == database.objects[key] by {
            lemma_named_among(objects, true, key);
            assert(before[key] == database.objects[key]);
        }
        assert forall|k: int|
            0 <= k < objects.len() && (#[trigger] objects[k]).table() implies next[object_key(
            objects[k],
        )] == (HeldObject::<R> {
            sql: database.objects[object_key(objects[k])].sql,
            rows: database.objects[object_key(objects[k])].rows
                + snapshot.objects[object_key(objects[k])].rows,
        }) by {
            if k < fewer.len() {
                assert(fewer[k] == objects[k]);
                assert(object_key(objects[k]) != object_key(objects[objects.len() - 1]));
            }
        }
    }
}

/// A restore is a replacement: whatever the live database holds, its schema and
/// its rows end as those of the snapshot.
pub proof fn law_restore_gives_the_snapshot<R>(
    snapshot: Seq<SchemaObject>,
    live: Seq<SchemaObject>,
    source: Database<R>,
    database: Database<R>,
)
    requires
        source.lists(snapshot),
        database.lists(live),
        forall|k: int|
            0 <= k < own_objects(live).len() ==> (
            #[trigger] own_objects(live)[k]).drop_statement() is Some,
    ensures
        database.after(restore_steps(snapshot, live), source) == source,
{
    let old = own_objects(live);
    let new = own_objects(snapshot);
    let p1 = phase(old, Step::Drop, false);
    let p2 = phase(old, Step::Drop, true);
    let p3 = phase(new, Step::Create, true);
    let p4 = phase(new, Step::Copy, true);
    let p5 = phase(new, Step::Create, false);
    lemma_after_both(database, p1 + p2 + p3 + p4, p5, source);
    lemma_after_both(database, p1 + p2 + p3, p4, source);
    lemma_after_both(database, p1 + p2, p3, source);
    lemma_after_both(database, p1, p2, source);
    let d1 = database.after(p1, source);
    let d2 = d1.after(p2, source);
    let d3 = d2.after(p3, source);
    let d4 = d3.after(p4, source);
    let d5 = d4.after(p5, source);
    lemma_after_drops(database, old, false, source);
    lemma_after_drops(d1, old, true, source);
    lemma_after_creations(d2, new, true, source);
    assert forall|key: (Seq<char>, Seq<char>)| !(#[trigger] d2.objects.contains_key(key)) by {
        assert(d1.objects.contains_key(key) <==> database.objects.contains_key(key)
            && !named_among(old, false, key));
        if database.objects.contains_key(key) {
            let k = choose|k: int| 0 <= k < old.len() && object_key(#[trigger] old[k]) == key;
            assert(named_among(old, old[k].table(), key));
        }
    }
    assert forall|k: int| 0 <= k < new.len() && (#[trigger] new[k]).table() implies d3.objects.contains_key(
    object_key(new[k])) by {
        assert(named_among(new, true, object_key(new[k])));
    }
    lemma_after_copies(d3, new, source);
    lemma_after_creations(d4, new, false, source);
    assert forall|key: (Seq<char>, Seq<char>)| #[trigger]
        d5.objects.contains_key(key) <==> source.objects.contains_key(key) by {
        assert(d4.objects.contains_key(key) <==> d3.objects.contains_key(key));
        assert(d3.objects.contains_key(key) <==> d2.objects.contains_key(key) || named_among(
            new,
            true,
            key,
        ));
        assert(!d2.objects.contains_key(key));
        if named(new, key) {
            let k = choose|k: int| 0 <= k < new.len() && object_key(#[trigger] new[k]) == key;
            assert(named_among(new, new[k].table(), key));
        }
    }
    assert forall|key: (Seq<char>, Seq<char>)| #[trigger]
        source.objects.contains_key(key) implies d5.objects[key] == source.objects[key] by {
        assert(named(new, key));
        let k = choose|k: int| 0 <= k < new.len() && object_key(#[trigger] new[k]) == key;
        let held = source.objects[key];
        assert(held.sql == new[k].sql@);
        if new[k].table() {
            if named_among(new, false, key) {
                let m = choose|m: int|
                    0 <= m < new.len() && object_key(#[trigger] new[m]) == key && new[m].table()
                        == false;
                assert(m != k);
                if m < k {
                    assert(object_key(new[m]) != object_key(new[k]));
                } else {
                    assert(object_key(new[k]) != object_key(new[m]));
                }
            }
            assert(d5.objects[key] == d4.objects[key]);
            assert(d3.objects[object_key(new[k])].rows == Seq::<R>::empty());
            assert(d4.objects[key].rows == d3.objects[key].rows + held.rows);
            assert(d4.objects[key].rows =~= held.rows);
        } else {
            assert(d5.objects[object_key(new[k])].rows == Seq::<R>::empty());
            assert(held.rows =~= Seq::<R>::empty());
        }
    }
    assert(d5.objects =~= source.objects);
}

} // verus!
