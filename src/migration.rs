//! The schema evolution engine.
//!
//! The engine reads the catalog and names the steps that bring the store to
//! the current schema, in order; the caller runs each step's statements and
//! introspects again before asking for the next one.
//!
//! * A store with none of the governed tables is initialised afresh: every
//!   table in its current form, and the default settings row.
//! * Otherwise each check runs in a fixed order: missing tables are created
//!   (a referenced table before the tables that refer to it), then columns that
//!   an older `scheduled_tweets` lacks are added, then a `reply_settings` table
//!   of the older shape is rebuilt.
//!
//! Every check looks only at the catalog, and the step it plans removes its
//! own cause, so running the whole sequence again finds nothing to do.

use vstd::prelude::*;

use crate::catalog::{Catalog, SchemaModel};
use crate::schema::{
    all_tables, column_set, create_table_sql, create_table_sql_of, creation_order, Table,
};

verus! {

/// A column that an older `scheduled_tweets` table may lack, added in place.
#[derive(Debug, Clone, Copy, PartialEq, Eq, Structural)]
pub enum AddedColumn {
    ContentList,
    CurrentIndex,
    ScheduledTimes,
    IsActive,
}

impl AddedColumn {
    pub open spec fn spec_name(self) -> Seq<char> {
        match self {
            AddedColumn::ContentList => "content_list"@,
            AddedColumn::CurrentIndex => "current_index"@,
            AddedColumn::ScheduledTimes => "scheduled_times"@,
            AddedColumn::IsActive => "is_active"@,
        }
    }

    /// The column's name.
    pub fn name(self) -> (r: &'static str)
        ensures
            r@ == self.spec_name(),
    {
        match self {
            AddedColumn::ContentList => "content_list",
            AddedColumn::CurrentIndex => "current_index",
            AddedColumn::ScheduledTimes => "scheduled_times",
            AddedColumn::IsActive => "is_active",
        }
    }

    /// The declaration it is added with: nullable or with a default, so that
    /// the rows already there stay valid.
    pub open spec fn spec_decl(self) -> Seq<char> {
        match self {
            AddedColumn::ContentList => "TEXT"@,
            AddedColumn::CurrentIndex => "INTEGER DEFAULT 0"@,
            AddedColumn::ScheduledTimes => "TEXT DEFAULT ''"@,
            AddedColumn::IsActive => "BOOLEAN DEFAULT 1"@,
        }
    }

    /// The declaration it is added with.
    pub fn decl(self) -> (r: &'static str)
        ensures
            r@ == self.spec_decl(),
    {
        match self {
            AddedColumn::ContentList => "TEXT",
            AddedColumn::CurrentIndex => "INTEGER DEFAULT 0",
            AddedColumn::ScheduledTimes => "TEXT DEFAULT ''",
            AddedColumn::IsActive => "BOOLEAN DEFAULT 1",
        }
    }
}

/// The added columns, in the order they are checked.
pub open spec fn added_columns() -> Seq<AddedColumn> {
    seq![
        AddedColumn::ContentList,
        AddedColumn::CurrentIndex,
        AddedColumn::ScheduledTimes,
        AddedColumn::IsActive,
    ]
}

/// The added columns, in the order they are checked.
pub fn all_added_columns() -> (r: Vec<AddedColumn>)
    ensures
        r@ == added_columns(),
{
    let r = vec![
        AddedColumn::ContentList,
        AddedColumn::CurrentIndex,
        AddedColumn::ScheduledTimes,
        AddedColumn::IsActive,
    ];
    assert(r@ =~= added_columns());
    r
}

/// The column whose absence marks a `reply_settings` table of the older,
/// one-target-many-repliers shape.
pub open spec fn reply_marker() -> Seq<char> {
    "target_bot_ids"@
}

/// One named step of the upgrade.
#[derive(Debug, Clone, Copy, PartialEq, Eq, Structural)]
pub enum Step {
    /// Create every table in its current form and seed the default settings row.
    FreshInstall,
    /// Create one missing table of an existing store. No row is written: the
    /// default settings row belongs to the fresh install alone.
    CreateTable(Table),
    /// Add one missing column to `scheduled_tweets`.
    AddColumn(AddedColumn),
    /// Rebuild `reply_settings` in the current shape, carrying every one of its
    /// rows over through the fan-out of the reply-rule module. Its statements and the
    /// re-inserts form one transaction, run after the legacy rows were read.
    RebuildReplySettings,
}

pub open spec fn no_governed_table(m: SchemaModel) -> bool {
    forall|t: Table| !m.contains_key(t)
}

pub open spec fn needs_column(m: SchemaModel, a: AddedColumn) -> bool {
    m.contains_key(Table::ScheduledTweets) && !m[Table::ScheduledTweets].contains(a.spec_name())
}

pub open spec fn needs_rebuild(m: SchemaModel) -> bool {
    m.contains_key(Table::ReplySettings) && !m[Table::ReplySettings].contains(reply_marker())
}

/// A creation step for each table of `order` that is missing, in that order.
pub open spec fn table_creations(m: SchemaModel, order: Seq<Table>) -> Seq<Step>
    decreases order.len(),
{
    if order.len() == 0 {
        Seq::empty()
    } else {
        table_creations(m, order.drop_last()) + if m.contains_key(order.last()) {
            Seq::empty()
        } else {
            seq![Step::CreateTable(order.last())]
        }
    }
}

/// An addition step for each column of `cols` that an existing
/// `scheduled_tweets` lacks, in that order.
pub open spec fn column_additions(m: SchemaModel, cols: Seq<AddedColumn>) -> Seq<Step>
    decreases cols.len(),
{
    if cols.len() == 0 {
        Seq::empty()
    } else {
        column_additions(m, cols.drop_last()) + if needs_column(m, cols.last()) {
            seq![Step::AddColumn(cols.last())]
        } else {
            Seq::empty()
        }
    }
}

/// The steps that bring a store with governed part `m` to the current schema.
pub open spec fn plan_of(m: SchemaModel) -> Seq<Step> {
    if no_governed_table(m) {
        seq![Step::FreshInstall]
    } else {
        table_creations(m, creation_order()) + column_additions(m, added_columns()) + if needs_rebuild(
            m,
        ) {
            seq![Step::RebuildReplySettings]
        } else {
            Seq::empty()
        }
    }
}

/// Every table stands in the creation order.
pub proof fn lemma_creation_order_complete(t: Table)
    ensures
        creation_order().contains(t),
{
    let o = creation_order();
    match t {
        Table::BotAccounts => assert(o[0] == t),
        Table::BotConfigs => assert(o[1] == t),
        Table::ReplySettings => assert(o[2] == t),
        Table::ExecutionLogs => assert(o[3] == t),
        Table::ScheduledTweets => assert(o[4] == t),
        Table::UserSettings => assert(o[5] == t),
        Table::AppSettings => assert(o[6] == t),
    }
}

/// The steps that bring the store the catalog describes to the current schema.
pub fn plan(catalog: &Catalog) -> (r: Vec<Step>)
    ensures
        r@ == plan_of(catalog.model()),
{
    let ghost m = catalog.model();
    let order = all_tables();
    let mut any = false;
    let mut i: usize = 0;
    while i < order.len()
        invariant
            order@ == creation_order(),
            i <= order@.len(),
            m == catalog.model(),
            any == exists|k: int| 0 <= k < i && m.contains_key(#[trigger] order@[k]),
        decreases order@.len() - i,
    {
        if catalog.has_table(order[i].name()) {
            any = true;
        }
        i += 1;
    }
    if !any {
        proof {
            assert forall|t: Table| !m.contains_key(t) by {
                lemma_creation_order_complete(t);
            }
        }
        return vec![Step::FreshInstall];
    }
    let mut steps: Vec<Step> = Vec::new();
    let mut i: usize = 0;
    while i < order.len()
        invariant
            order@ == creation_order(),
            i <= order@.len(),
            m == catalog.model(),
            steps@ == table_creations(m, order@.take(i as int)),
        decreases order@.len() - i,
    {
        let t = order[i];
        if !catalog.has_table(t.name()) {
            steps.push(Step::CreateTable(t));
        }
        proof {
            assert(order@.take(i + 1).drop_last() =~= order@.take(i as int));
        }
        i += 1;
    }
    assert(order@.take(order@.len() as int) =~= order@);
    let cols = all_added_columns();
    let scheduled = Table::ScheduledTweets.name();
    let mut j: usize = 0;
    while j < cols.len()
        invariant
            cols@ == added_columns(),
            j <= cols@.len(),
            m == catalog.model(),
            scheduled@ == Table::ScheduledTweets.spec_name(),
            steps@ == table_creations(m, creation_order()) + column_additions(
                m,
                cols@.take(j as int),
            ),
        decreases cols@.len() - j,
    {
        let a = cols[j];
        let ghost before = steps@;
        if catalog.has_table(scheduled) && !catalog.has_column(scheduled, a.name()) {
            steps.push(Step::AddColumn(a));
        }
        proof {
            assert(cols@.take(j + 1).drop_last() =~= cols@.take(j as int));
            assert(steps@ =~= table_creations(m, creation_order()) + column_additions(
                m,
                cols@.take(j + 1),
            ));
        }
        j += 1;
    }
    assert(cols@.take(cols@.len() as int) =~= cols@);
    let replies = Table::ReplySettings.name();
    let ghost before = steps@;
    if catalog.has_table(replies) && !catalog.has_column(replies, "target_bot_ids") {
        steps.push(Step::RebuildReplySettings);
    }
    assert(steps@ =~= plan_of(m));
    steps
}

/// The next step to run, if any: the first of the plan.
pub fn next_step(catalog: &Catalog) -> (r: Option<Step>)
    ensures
        plan_of(catalog.model()).len() == 0 ==> r is None,
        plan_of(catalog.model()).len() > 0 ==> r == Some(plan_of(catalog.model())[0]),
{
    let steps = plan(catalog);
    if steps.len() == 0 {
        None
    } else {
        Some(steps[0])
    }
}


/// One statement of a step, for the caller to run. Where `binds_now` holds it
/// takes one parameter, `?1`, the current time as RFC 3339 text.
#[derive(Debug, Clone)]
pub struct Statement {
    pub sql: String,
    pub binds_now: bool,
}

pub open spec fn statement_views(v: Seq<Statement>) -> Seq<(Seq<char>, bool)> {
    v.map_values(|x: Statement| (x.sql@, x.binds_now))
}

/// The one row a fresh store holds: the default user settings.
pub open spec fn seed_settings_sql() -> Seq<char> {
    "INSERT OR IGNORE INTO user_settings (user_id, created_at, updated_at) VALUES ('default', ?1, ?1)"@
}

pub open spec fn add_column_sql_of(a: AddedColumn) -> Seq<char> {
    "ALTER TABLE scheduled_tweets ADD COLUMN "@ + a.spec_name() + " "@ + a.spec_decl()
}

pub open spec fn drop_reply_settings_sql() -> Seq<char> {
    "DROP TABLE reply_settings"@
}

/// The statements that create the tables of `order`, in that order.
pub open spec fn creations(order: Seq<Table>) -> Seq<(Seq<char>, bool)> {
    order.map_values(|t: Table| (create_table_sql_of(t), false))
}

/// What a step runs. Only the fresh install writes a row: the default
/// settings row. The rebuild's re-inserts follow its two statements.
pub open spec fn statements_of(s: Step) -> Seq<(Seq<char>, bool)> {
    match s {
        Step::FreshInstall => creations(creation_order()).push((seed_settings_sql(), true)),
        Step::CreateTable(t) => seq![(create_table_sql_of(t), false)],
        Step::AddColumn(a) => seq![(add_column_sql_of(a), false)],
        Step::RebuildReplySettings => seq![
            (drop_reply_settings_sql(), false),
            (create_table_sql_of(Table::ReplySettings), false),
        ],
    }
}

/// Reads every rule of an older `reply_settings`, active or not. By position, the columns are the id, the watched account, the
/// repliers' JSON list, the reply text, the active flag, the last-seen post
/// id and the creation time.
pub const LEGACY_REPLY_RULES_QUERY: &'static str = "SELECT * FROM reply_settings";

/// Inserts one carried-over rule; its parameters are the fields of a reply
/// rule in declaration order.
pub const INSERT_REPLY_RULE_SQL: &'static str =
    "INSERT INTO reply_settings (target_bot_ids, reply_bot_id, reply_content, is_active, \
     last_checked_tweet_ids, created_at, updated_at) VALUES (?1, ?2, ?3, ?4, ?5, ?6, ?7)";

fn plain(sql: String) -> (r: Statement)
    ensures
        r.sql == sql,
        !r.binds_now,
{
    Statement { sql, binds_now: false }
}

fn seed_settings() -> (r: Statement)
    ensures
        r.sql@ == seed_settings_sql(),
        r.binds_now,
{
    Statement {
        sql: "INSERT OR IGNORE INTO user_settings (user_id, created_at, updated_at) \
              VALUES ('default', ?1, ?1)".to_owned(),
        binds_now: true,
    }
}

impl Step {
    /// The statements the step runs, in order.
    pub fn statements(&self) -> (r: Vec<Statement>)
        ensures
            statement_views(r@) == statements_of(*self),
    {
        let mut r: Vec<Statement> = Vec::new();
        match *self {
            Step::FreshInstall => {
                let order = all_tables();
                let mut i: usize = 0;
                while i < order.len()
                    invariant
                        order@ == creation_order(),
                        i <= order@.len(),
                        statement_views(r@) == creations(order@.take(i as int)),
                    decreases order@.len() - i,
                {
                    let ghost before = r@;
                    let st = plain(create_table_sql(order[i]));
                    r.push(st);
                    proof {
                        assert(statement_views(r@) =~= statement_views(before).push(
                            (st.sql@, st.binds_now),
                        ));
                        assert(creations(order@.take(i + 1)) =~= creations(order@.take(i as int)).push(
                            (create_table_sql_of(order@[i as int]), false),
                        ));
                    }
                    i += 1;
                }
                assert(order@.take(order@.len() as int) =~= order@);
                r.push(seed_settings());
            },
            Step::CreateTable(t) => {
                r.push(plain(create_table_sql(t)));
            },
            Step::AddColumn(a) => {
                let mut sql = "ALTER TABLE scheduled_tweets ADD COLUMN ".to_owned();
                sql.append(a.name());
                sql.append(" ");
                sql.append(a.decl());
                r.push(plain(sql));
            },
            Step::RebuildReplySettings => {
                r.push(plain("DROP TABLE reply_settings".to_owned()));
                r.push(plain(create_table_sql(Table::ReplySettings)));
            },
        }
        assert(statement_views(r@) =~= statements_of(*self));
        r
    }
}

/// The governed part of a store at the current schema: every table, each with
/// exactly its current columns.
pub open spec fn current_schema() -> SchemaModel {
    Map::new(|t: Table| true, |t: Table| column_set(t))
}

/// What a step's statements do to the governed part of the catalog.
pub open spec fn apply_step(m: SchemaModel, s: Step) -> SchemaModel {
    match s {
        Step::FreshInstall => current_schema(),
        Step::CreateTable(t) => m.insert(t, column_set(t)),
        Step::AddColumn(a) => m.insert(
            Table::ScheduledTweets,
            m[Table::ScheduledTweets].insert(a.spec_name()),
        ),
        Step::RebuildReplySettings => m.insert(Table::ReplySettings, column_set(Table::ReplySettings)),
    }
}

/// The steps run one after another.
pub open spec fn apply_steps(m: SchemaModel, steps: Seq<Step>) -> SchemaModel
    decreases steps.len(),
{
    if steps.len() == 0 {
        m
    } else {
        apply_steps(apply_step(m, steps[0]), steps.drop_first())
    }
}

/// The condition a step exists to bring about.
pub open spec fn resolved(m: SchemaModel, s: Step) -> bool {
    match s {
        Step::FreshInstall => !no_governed_table(m),
        Step::CreateTable(t) => m.contains_key(t),
        Step::AddColumn(a) => m.contains_key(Table::ScheduledTweets)
            && m[Table::ScheduledTweets].contains(a.spec_name()),
        Step::RebuildReplySettings => m.contains_key(Table::ReplySettings)
            && m[Table::ReplySettings].contains(reply_marker()),
    }
}

/// Running step `s` brings about the condition of step `r`.
pub open spec fn covers(s: Step, r: Step) -> bool {
    ||| s == r
    ||| s == Step::FreshInstall
    ||| (s == Step::CreateTable(Table::ScheduledTweets) && r is AddColumn)
    ||| (s == Step::CreateTable(Table::ReplySettings) && r == Step::RebuildReplySettings)
    ||| (r == Step::FreshInstall)
}

proof fn lemma_current_columns()
    ensures
        forall|a: AddedColumn| column_set(Table::ScheduledTweets).contains(#[trigger] a.spec_name()),
        column_set(Table::ReplySettings).contains(reply_marker()),
{
    let st = crate::schema::column_names(Table::ScheduledTweets);
    assert(st[3] == "content_list"@);
    assert(st[4] == "current_index"@);
    assert(st[5] == "scheduled_times"@);
    assert(st[6] == "is_active"@);
    assert forall|a: AddedColumn|
        column_set(Table::ScheduledTweets).contains(#[trigger] a.spec_name()) by {
        match a {
            AddedColumn::ContentList => assert(st.contains(a.spec_name())),
            AddedColumn::CurrentIndex => assert(st.contains(a.spec_name())),
            AddedColumn::ScheduledTimes => assert(st.contains(a.spec_name())),
            AddedColumn::IsActive => assert(st.contains(a.spec_name())),
        }
    }
    let rs = crate::schema::column_names(Table::ReplySettings);
    assert(rs[1] == reply_marker());
    assert(rs.contains(reply_marker()));
}

proof fn lemma_step_keeps(m: SchemaModel, s: Step, r: Step)
    requires
        resolved(m, r),
    ensures
        resolved(apply_step(m, s), r),
{
    lemma_current_columns();
    if r == Step::FreshInstall {
        let t = choose|t: Table| m.contains_key(t);
        assert(apply_step(m, s).contains_key(t));
    }
}

proof fn lemma_step_establishes(m: SchemaModel, s: Step, r: Step)
    requires
        covers(s, r),
    ensures
        resolved(apply_step(m, s), r),
{
    lemma_current_columns();
    let n = apply_step(m, s);
    match s {
        Step::FreshInstall => assert(n.contains_key(Table::BotAccounts)),
        Step::CreateTable(t) => assert(n.contains_key(t)),
        Step::AddColumn(_) => assert(n.contains_key(Table::ScheduledTweets)),
        Step::RebuildReplySettings => assert(n.contains_key(Table::ReplySettings)),
    }
}

proof fn lemma_steps_keep(m: SchemaModel, steps: Seq<Step>, r: Step)
    requires
        resolved(m, r),
    ensures
        resolved(apply_steps(m, steps), r),
    decreases steps.len(),
{
    if steps.len() > 0 {
        lemma_step_keeps(m, steps[0], r);
        lemma_steps_keep(apply_step(m, steps[0]), steps.drop_first(), r);
    }
}

proof fn lemma_steps_establish(m: SchemaModel, steps: Seq<Step>, i: int, r: Step)
    requires
        0 <= i < steps.len(),
        covers(steps[i], r),
    ensures
        resolved(apply_steps(m, steps), r),
    decreases steps.len(),
{
    if i == 0 {
        lemma_step_establishes(m, steps[0], r);
        lemma_steps_keep(apply_step(m, steps[0]), steps.drop_first(), r);
    } else {
        lemma_steps_establish(apply_step(m, steps[0]), steps.drop_first(), i - 1, r);
    }
}

proof fn lemma_creations_contain(m: SchemaModel, order: Seq<Table>, t: Table)
    requires
        order.contains(t),
        !m.contains_key(t),
    ensures
        table_creations(m, order).contains(Step::CreateTable(t)),
    decreases order.len(),
{
    let c = table_creations(m, order);
    if order.last() == t {
        assert(c[c.len() - 1] == Step::CreateTable(t));
    } else {
        let k = choose|k: int| 0 <= k < order.len() && order[k] == t;
        assert(order.drop_last()[k] == t);
        lemma_creations_contain(m, order.drop_last(), t);
        let p = table_creations(m, order.drop_last());
        let j = choose|j: int| 0 <= j < p.len() && p[j] == Step::CreateTable(t);
        assert(c[j] == Step::CreateTable(t));
    }
}

proof fn lemma_additions_contain(m: SchemaModel, cols: Seq<AddedColumn>, a: AddedColumn)
    requires
        cols.contains(a),
        needs_column(m, a),
    ensures
        column_additions(m, cols).contains(Step::AddColumn(a)),
    decreases cols.len(),
{
    let c = column_additions(m, cols);
    if cols.last() == a {
        assert(c[c.len() - 1] == Step::AddColumn(a));
    } else {
        let k = choose|k: int| 0 <= k < cols.len() && cols[k] == a;
        assert(cols.drop_last()[k] == a);
        lemma_additions_contain(m, cols.drop_last(), a);
        let p = column_additions(m, cols.drop_last());
        let j = choose|j: int| 0 <= j < p.len() && p[j] == Step::AddColumn(a);
        assert(c[j] == Step::AddColumn(a));
    }
}

proof fn lemma_no_creations(m: SchemaModel, order: Seq<Table>)
    requires
        forall|t: Table| m.contains_key(t),
    ensures
        table_creations(m, order) == Seq::<Step>::empty(),
    decreases order.len(),
{
    if order.len() > 0 {
        lemma_no_creations(m, order.drop_last());
        assert(table_creations(m, order) =~= Seq::<Step>::empty());
    }
}

proof fn lemma_no_additions(m: SchemaModel, cols: Seq<AddedColumn>)
    requires
        forall|a: AddedColumn| !needs_column(m, a),
    ensures
        column_additions(m, cols) == Seq::<Step>::empty(),
    decreases cols.len(),
{
    if cols.len() > 0 {
        lemma_no_additions(m, cols.drop_last());
        assert(column_additions(m, cols) =~= Seq::<Step>::empty());
    }
}

proof fn lemma_added_columns_complete(a: AddedColumn)
    ensures
        added_columns().contains(a),
{
    let c = added_columns();
    match a {
        AddedColumn::ContentList => assert(c[0] == a),
        AddedColumn::CurrentIndex => assert(c[1] == a),
        AddedColumn::ScheduledTimes => assert(c[2] == a),
        AddedColumn::IsActive => assert(c[3] == a),
    }
}

/// A store in which every step's condition holds needs no step.
proof fn lemma_all_resolved_plan_empty(m: SchemaModel)
    requires
        forall|s: Step| resolved(m, s),
    ensures
        plan_of(m) == Seq::<Step>::empty(),
{
    assert(resolved(m, Step::FreshInstall));
    assert forall|t: Table| m.contains_key(t) by {
        assert(resolved(m, Step::CreateTable(t)));
    }
    assert forall|a: AddedColumn| !needs_column(m, a) by {
        assert(resolved(m, Step::AddColumn(a)));
    }
    assert(resolved(m, Step::RebuildReplySettings));
    lemma_no_creations(m, creation_order());
    lemma_no_additions(m, added_columns());
    assert(plan_of(m) =~= Seq::<Step>::empty());
}

/// A store with none of the governed tables takes the fresh-install path and
/// nothing else; it ends with exactly the current schema, every table with
/// exactly its current columns, and the only row written is the default
/// settings row. After it the engine finds nothing left to do.
pub proof fn lemma_fresh_install(m: SchemaModel)
    requires
        no_governed_table(m),
    ensures
        plan_of(m) == seq![Step::FreshInstall],
        apply_steps(m, plan_of(m)) == current_schema(),
        statements_of(Step::FreshInstall) == creations(creation_order()).push(
            (seed_settings_sql(), true),
        ),
        plan_of(current_schema()) == Seq::<Step>::empty(),
{
    let p = plan_of(m);
    assert(p.drop_first() =~= Seq::<Step>::empty());
    assert(apply_steps(m, p) == apply_steps(current_schema(), p.drop_first()));
    lemma_current_columns();
    assert forall|s: Step| resolved(current_schema(), s) by {
        assert(current_schema().contains_key(Table::BotAccounts));
    }
    lemma_all_resolved_plan_empty(current_schema());
}

/// Running the whole upgrade sequence leaves a store on which the sequence
/// plans no step, from any starting catalog: a second run changes neither the
/// schema nor any row. Every governed table exists afterwards.
pub proof fn lemma_upgrade_idempotent(m: SchemaModel)
    ensures
        plan_of(apply_steps(m, plan_of(m))) == Seq::<Step>::empty(),
        forall|t: Table| #[trigger] apply_steps(m, plan_of(m)).contains_key(t),
{
    let p = plan_of(m);
    let n = apply_steps(m, p);
    if no_governed_table(m) {
        lemma_fresh_install(m);
        assert(n == current_schema());
    } else {
        let c = table_creations(m, creation_order());
        let d = column_additions(m, added_columns());
        let e = if needs_rebuild(m) {
            seq![Step::RebuildReplySettings]
        } else {
            Seq::<Step>::empty()
        };
        assert(p == c + d + e);
        assert forall|s: Step| resolved(n, s) by {
            if resolved(m, s) {
                lemma_steps_keep(m, p, s);
            } else {
                match s {
                    Step::FreshInstall => {},
                    Step::CreateTable(t) => {
                        lemma_creation_order_complete(t);
                        lemma_creations_contain(m, creation_order(), t);
                        let j = choose|j: int| 0 <= j < c.len() && c[j] == s;
                        assert(p[j] == s);
                        lemma_steps_establish(m, p, j, s);
                    },
                    Step::AddColumn(a) => {
                        if m.contains_key(Table::ScheduledTweets) {
                            lemma_added_columns_complete(a);
                            lemma_additions_contain(m, added_columns(), a);
                            let j = choose|j: int| 0 <= j < d.len() && d[j] == s;
                            assert(p[c.len() + j] == s);
                            lemma_steps_establish(m, p, c.len() + j, s);
                        } else {
                            let u = Step::CreateTable(Table::ScheduledTweets);
                            lemma_creation_order_complete(Table::ScheduledTweets);
                            lemma_creations_contain(m, creation_order(), Table::ScheduledTweets);
                            let j = choose|j: int| 0 <= j < c.len() && c[j] == u;
                            assert(p[j] == u);
                            lemma_steps_establish(m, p, j, s);
                        }
                    },
                    Step::RebuildReplySettings => {
                        if m.contains_key(Table::ReplySettings) {
                            assert(p[(c.len() + d.len()) as int] == s);
                            lemma_steps_establish(m, p, (c.len() + d.len()) as int, s);
                        } else {
                            let u = Step::CreateTable(Table::ReplySettings);
                            lemma_creation_order_complete(Table::ReplySettings);
                            lemma_creations_contain(m, creation_order(), Table::ReplySettings);
                            let j = choose|j: int| 0 <= j < c.len() && c[j] == u;
                            assert(p[j] == u);
                            lemma_steps_establish(m, p, j, s);
                        }
                    },
                }
            }
        }
        lemma_all_resolved_plan_empty(n);
        assert forall|t: Table| #[trigger] n.contains_key(t) by {
            assert(resolved(n, Step::CreateTable(t)));
        }
    }
}

proof fn lemma_creations_congruent(m1: SchemaModel, m2: SchemaModel, order: Seq<Table>)
    requires
        forall|k: int|
            0 <= k < order.len() ==> m1.contains_key(#[trigger] order[k]) == m2.contains_key(
                order[k],
            ),
    ensures
        table_creations(m1, order) == table_creations(m2, order),
    decreases order.len(),
{
    if order.len() > 0 {
        assert(m1.contains_key(order[order.len() - 1]) == m2.contains_key(order[order.len() - 1]));
        lemma_creations_congruent(m1, m2, order.drop_last());
    }
}

proof fn lemma_creations_only(m: SchemaModel, order: Seq<Table>, t: Table)
    requires
        !order.contains(t),
    ensures
        !table_creations(m, order).contains(Step::CreateTable(t)),
    decreases order.len(),
{
    if order.len() > 0 {
        assert(order[order.len() - 1] != t);
        assert forall|k: int| 0 <= k < order.drop_last().len() implies order.drop_last()[k] != t by {
            assert(order[k] != t);
        }
        lemma_creations_only(m, order.drop_last(), t);
    }
}

/// Creating the first missing table leaves the rest of the creations.
proof fn lemma_creations_after_create(m: SchemaModel, order: Seq<Table>, t: Table, cols: Set<Seq<char>>)
    requires
        order.no_duplicates(),
        table_creations(m, order).len() > 0,
        table_creations(m, order)[0] == Step::CreateTable(t),
    ensures
        table_creations(m.insert(t, cols), order) == table_creations(m, order).drop_first(),
    decreases order.len(),
{
    let n = m.insert(t, cols);
    let init = order.drop_last();
    let l = order.last();
    let p = table_creations(m, init);
    assert(init.no_duplicates());
    if p.len() == 0 {
        assert(l == t);
        assert forall|k: int| 0 <= k < init.len() implies m.contains_key(#[trigger] init[k])
            == n.contains_key(init[k]) by {
            assert(init[k] == order[k]);
            assert(order[k] != order[order.len() - 1]);
        }
        lemma_creations_congruent(m, n, init);
        assert(table_creations(n, order) =~= table_creations(m, order).drop_first());
    } else {
        assert(table_creations(m, order)[0] == p[0]);
        lemma_creations_after_create(m, init, t, cols);
        if l == t {
            assert(p.contains(Step::CreateTable(t)));
            assert(!init.contains(t)) by {
                if init.contains(t) {
                    let k = choose|k: int| 0 <= k < init.len() && init[k] == t;
                    assert(order[k] == order[order.len() - 1]);
                }
            }
            lemma_creations_only(m, init, t);
        }
        assert(table_creations(n, order) =~= table_creations(m, order).drop_first());
    }
}

proof fn lemma_additions_congruent(m1: SchemaModel, m2: SchemaModel, cols: Seq<AddedColumn>)
    requires
        forall|k: int|
            0 <= k < cols.len() ==> needs_column(m1, #[trigger] cols[k]) == needs_column(
                m2,
                cols[k],
            ),
    ensures
        column_additions(m1, cols) == column_additions(m2, cols),
    decreases cols.len(),
{
    if cols.len() > 0 {
        assert(needs_column(m1, cols[cols.len() - 1]) == needs_column(m2, cols[cols.len() - 1]));
        lemma_additions_congruent(m1, m2, cols.drop_last());
    }
}

proof fn lemma_additions_only(m: SchemaModel, cols: Seq<AddedColumn>, a: AddedColumn)
    requires
        !cols.contains(a),
    ensures
        !column_additions(m, cols).contains(Step::AddColumn(a)),
    decreases cols.len(),
{
    if cols.len() > 0 {
        assert(cols[cols.len() - 1] != a);
        assert forall|k: int| 0 <= k < cols.drop_last().len() implies cols.drop_last()[k] != a by {
            assert(cols[k] != a);
        }
        lemma_additions_only(m, cols.drop_last(), a);
    }
}

/// Distinct added columns have distinct names.
proof fn lemma_added_names_distinct(a: AddedColumn, b: AddedColumn)
    requires
        a != b,
    ensures
        a.spec_name() != b.spec_name(),
{
    reveal_strlit("content_list");
    reveal_strlit("current_index");
    reveal_strlit("scheduled_times");
    reveal_strlit("is_active");
    assert(a.spec_name().len() != b.spec_name().len());
}

/// Adding the first missing column leaves the rest of the additions.
proof fn lemma_additions_after_add(m: SchemaModel, cols: Seq<AddedColumn>, a: AddedColumn)
    requires
        m.contains_key(Table::ScheduledTweets),
        cols.no_duplicates(),
        column_additions(m, cols).len() > 0,
        column_additions(m, cols)[0] == Step::AddColumn(a),
    ensures
        column_additions(apply_step(m, Step::AddColumn(a)), cols) == column_additions(
            m,
            cols,
        ).drop_first(),
    decreases cols.len(),
{
    let n = apply_step(m, Step::AddColumn(a));
    let init = cols.drop_last();
    let l = cols.last();
    let p = column_additions(m, init);
    assert(init.no_duplicates());
    assert forall|b: AddedColumn| b != a implies needs_column(m, b) == needs_column(n, b) by {
        lemma_added_names_distinct(a, b);
    }
    if p.len() == 0 {
        assert(l == a);
        assert forall|k: int| 0 <= k < init.len() implies needs_column(m, #[trigger] init[k])
            == needs_column(n, init[k]) by {
            assert(init[k] == cols[k]);
            assert(cols[k] != cols[cols.len() - 1]);
        }
        lemma_additions_congruent(m, n, init);
        assert(column_additions(n, cols) =~= column_additions(m, cols).drop_first());
    } else {
        assert(column_additions(m, cols)[0] == p[0]);
        lemma_additions_after_add(m, init, a);
        if l == a {
            assert(p.contains(Step::AddColumn(a)));
            assert(!init.contains(a)) by {
                if init.contains(a) {
                    let k = choose|k: int| 0 <= k < init.len() && init[k] == a;
                    assert(cols[k] == cols[cols.len() - 1]);
                }
            }
            lemma_additions_only(m, init, a);
        }
        assert(column_additions(n, cols) =~= column_additions(m, cols).drop_first());
    }
}

proof fn lemma_creations_shape(m: SchemaModel, order: Seq<Table>)
    ensures
        forall|i: int|
            0 <= i < table_creations(m, order).len() ==> exists|k: int|
                0 <= k < order.len() && #[trigger] table_creations(m, order)[i] == Step::CreateTable(
                    order[k],
                ) && !m.contains_key(order[k]),
    decreases order.len(),
{
    if order.len() > 0 {
        lemma_creations_shape(m, order.drop_last());
        let c = table_creations(m, order);
        let p = table_creations(m, order.drop_last());
        assert forall|i: int| 0 <= i < c.len() implies exists|k: int|
            0 <= k < order.len() && #[trigger] c[i] == Step::CreateTable(order[k])
                && !m.contains_key(order[k]) by {
            if i < p.len() {
                let k = choose|k: int|
                    0 <= k < order.drop_last().len() && p[i] == Step::CreateTable(
                        order.drop_last()[k],
                    ) && !m.contains_key(order.drop_last()[k]);
                assert(c[i] == Step::CreateTable(order[k]));
            } else {
                assert(c[i] == Step::CreateTable(order[order.len() - 1]));
            }
        }
    }
}

proof fn lemma_additions_shape(m: SchemaModel, cols: Seq<AddedColumn>)
    ensures
        forall|i: int|
            0 <= i < column_additions(m, cols).len() ==> exists|k: int|
                0 <= k < cols.len() && #[trigger] column_additions(m, cols)[i] == Step::AddColumn(
                    cols[k],
                ) && needs_column(m, cols[k]),
    decreases cols.len(),
{
    if cols.len() > 0 {
        lemma_additions_shape(m, cols.drop_last());
        let c = column_additions(m, cols);
        let p = column_additions(m, cols.drop_last());
        assert forall|i: int| 0 <= i < c.len() implies exists|k: int|
            0 <= k < cols.len() && #[trigger] c[i] == Step::AddColumn(cols[k]) && needs_column(
                m,
                cols[k],
            ) by {
            if i < p.len() {
                let k = choose|k: int|
                    0 <= k < cols.drop_last().len() && p[i] == Step::AddColumn(
                        cols.drop_last()[k],
                    ) && needs_column(m, cols.drop_last()[k]);
                assert(c[i] == Step::AddColumn(cols[k]));
            } else {
                assert(c[i] == Step::AddColumn(cols[cols.len() - 1]));
            }
        }
    }
}

/// Running the first planned step and planning again gives the rest of the
/// plan. So a caller that runs one step, introspects and asks again runs
/// exactly the plan, and stops after as many rounds as it has steps.
pub proof fn lemma_next_step_advances(m: SchemaModel)
    requires
        plan_of(m).len() > 0,
    ensures
        plan_of(apply_step(m, plan_of(m)[0])) == plan_of(m).drop_first(),
{
    let p = plan_of(m);
    let s = p[0];
    let n = apply_step(m, s);
    lemma_current_columns();
    if no_governed_table(m) {
        lemma_fresh_install(m);
        assert(p.drop_first() =~= Seq::<Step>::empty());
    } else {
        let o = creation_order();
        let c = table_creations(m, o);
        let d = column_additions(m, added_columns());
        assert(o.no_duplicates());
        assert(added_columns().no_duplicates());
        assert(!no_governed_table(n)) by {
            let t = choose|t: Table| m.contains_key(t);
            lemma_step_keeps(m, s, Step::CreateTable(t));
        }
        if c.len() > 0 {
            assert(s == c[0]);
            lemma_creations_shape(m, o);
            let k = choose|k: int|
                0 <= k < o.len() && c[0] == Step::CreateTable(o[k]) && !m.contains_key(o[k]);
            let t = o[k];
            lemma_creations_after_create(m, o, t, column_set(t));
            assert forall|a: AddedColumn| needs_column(m, a) == needs_column(n, a) by {}
            lemma_additions_congruent(m, n, added_columns());
            assert(needs_rebuild(m) == needs_rebuild(n));
            assert(plan_of(n) =~= p.drop_first());
        } else if d.len() > 0 {
            assert(s == d[0]);
            lemma_additions_shape(m, added_columns());
            let k = choose|k: int| 0 <= k < added_columns().len() && d[0] == Step::AddColumn(
                added_columns()[k],
            ) && needs_column(m, added_columns()[k]);
            let a = added_columns()[k];
            assert forall|k: int| 0 <= k < o.len() implies m.contains_key(#[trigger] o[k])
                == n.contains_key(o[k]) by {}
            lemma_creations_congruent(m, n, o);
            lemma_additions_after_add(m, added_columns(), a);
            assert(needs_rebuild(m) == needs_rebuild(n));
            assert(plan_of(n) =~= p.drop_first());
        } else {
            assert(s == Step::RebuildReplySettings);
            assert(needs_rebuild(m));
            assert forall|k: int| 0 <= k < o.len() implies m.contains_key(#[trigger] o[k])
                == n.contains_key(o[k]) by {}
            lemma_creations_congruent(m, n, o);
            assert forall|a: AddedColumn| needs_column(m, a) == needs_column(n, a) by {}
            lemma_additions_congruent(m, n, added_columns());
            assert(plan_of(n) =~= p.drop_first());
        }
    }
}

/// Whether running step `s` can change what the catalog says of table `t`.
pub open spec fn touches(s: Step, t: Table) -> bool {
    match s {
        Step::FreshInstall => true,
        Step::CreateTable(u) => u == t,
        Step::AddColumn(_) => t == Table::ScheduledTweets,
        Step::RebuildReplySettings => t == Table::ReplySettings,
    }
}

proof fn lemma_steps_frame(m: SchemaModel, steps: Seq<Step>, t: Table)
    requires
        forall|j: int| 0 <= j < steps.len() ==> !touches(#[trigger] steps[j], t),
    ensures
        apply_steps(m, steps).contains_key(t) == m.contains_key(t),
        m.contains_key(t) ==> apply_steps(m, steps)[t] == m[t],
    decreases steps.len(),
{
    if steps.len() > 0 {
        assert(!touches(steps[0], t));
        let rest = steps.drop_first();
        assert forall|j: int| 0 <= j < rest.len() implies !touches(#[trigger] rest[j], t) by {
            assert(rest[j] == steps[j + 1]);
        }
        lemma_steps_frame(apply_step(m, steps[0]), rest, t);
    }
}

proof fn lemma_steps_set(m: SchemaModel, steps: Seq<Step>, i: int, t: Table)
    requires
        0 <= i < steps.len(),
        steps[i] == Step::CreateTable(t) || (steps[i] == Step::RebuildReplySettings && t
            == Table::ReplySettings),
        forall|j: int| i < j < steps.len() ==> !touches(#[trigger] steps[j], t),
    ensures
        apply_steps(m, steps).contains_key(t),
        apply_steps(m, steps)[t] == column_set(t),
    decreases steps.len(),
{
    let rest = steps.drop_first();
    if i == 0 {
        assert forall|j: int| 0 <= j < rest.len() implies !touches(#[trigger] rest[j], t) by {
            assert(rest[j] == steps[j + 1]);
        }
        lemma_steps_frame(apply_step(m, steps[0]), rest, t);
    } else {
        assert forall|j: int| i - 1 < j < rest.len() implies !touches(#[trigger] rest[j], t) by {
            assert(rest[j] == steps[j + 1]);
        }
        lemma_steps_set(apply_step(m, steps[0]), rest, i - 1, t);
    }
}

proof fn lemma_steps_grow(m: SchemaModel, steps: Seq<Step>)
    requires
        m.contains_key(Table::ScheduledTweets),
        forall|j: int|
            0 <= j < steps.len() && touches(#[trigger] steps[j], Table::ScheduledTweets)
                ==> steps[j] is AddColumn,
    ensures
        apply_steps(m, steps).contains_key(Table::ScheduledTweets),
        m[Table::ScheduledTweets].subset_of(apply_steps(m, steps)[Table::ScheduledTweets]),
    decreases steps.len(),
{
    if steps.len() > 0 {
        let n = apply_step(m, steps[0]);
        assert(n.contains_key(Table::ScheduledTweets));
        assert(m[Table::ScheduledTweets].subset_of(n[Table::ScheduledTweets]));
        let rest = steps.drop_first();
        assert forall|j: int|
            0 <= j < rest.len() && touches(#[trigger] rest[j], Table::ScheduledTweets)
                implies rest[j] is AddColumn by {
            assert(rest[j] == steps[j + 1]);
        }
        lemma_steps_grow(n, rest);
    }
}

proof fn lemma_creations_no_duplicates(m: SchemaModel, order: Seq<Table>)
    requires
        order.no_duplicates(),
    ensures
        table_creations(m, order).no_duplicates(),
    decreases order.len(),
{
    if order.len() > 0 {
        let init = order.drop_last();
        assert(init.no_duplicates());
        lemma_creations_no_duplicates(m, init);
        let l = order.last();
        assert(!init.contains(l)) by {
            if init.contains(l) {
                let k = choose|k: int| 0 <= k < init.len() && init[k] == l;
                assert(order[k] == order[order.len() - 1]);
            }
        }
        lemma_creations_only(m, init, l);
    }
}

/// What a step of the upgrade path can change, by its place in the plan.
proof fn lemma_plan_touches(m: SchemaModel, j: int, t: Table)
    requires
        !no_governed_table(m),
        0 <= j < plan_of(m).len(),
    ensures
        plan_of(m)[j] != Step::FreshInstall,
        touches(plan_of(m)[j], t) ==> {
            ||| (plan_of(m)[j] == Step::CreateTable(t) && !m.contains_key(t) && j < table_creations(
                m,
                creation_order(),
            ).len())
            ||| (plan_of(m)[j] is AddColumn && t == Table::ScheduledTweets && m.contains_key(t))
            ||| (plan_of(m)[j] == Step::RebuildReplySettings && t == Table::ReplySettings
                && needs_rebuild(m))
        },
{
    let c = table_creations(m, creation_order());
    let d = column_additions(m, added_columns());
    let p = plan_of(m);
    lemma_creations_shape(m, creation_order());
    lemma_additions_shape(m, added_columns());
    if j < c.len() {
        assert(p[j] == c[j]);
    } else if j < c.len() + d.len() {
        assert(p[j] == d[j - c.len()]);
    } else {
        assert(p[j] == Step::RebuildReplySettings);
    }
}

/// What the upgrade leaves of each table. A table that was missing ends with
/// exactly its current columns, and so does a rebuilt `reply_settings`.
/// `scheduled_tweets` keeps its columns and gains every added column. Every
/// other table that existed is left as it was: no check looks at its columns,
/// so its column set is exact only where it already was. The upgrade path
/// never runs the fresh install, the one step that writes a settings row.
pub proof fn lemma_upgrade_column_sets(m: SchemaModel)
    ensures
        forall|t: Table|
            !m.contains_key(t) ==> #[trigger] apply_steps(m, plan_of(m))[t] == column_set(t),
        needs_rebuild(m) ==> apply_steps(m, plan_of(m))[Table::ReplySettings] == column_set(
            Table::ReplySettings,
        ),
        m.contains_key(Table::ScheduledTweets) ==> m[Table::ScheduledTweets].subset_of(
            apply_steps(m, plan_of(m))[Table::ScheduledTweets],
        ),
        forall|a: AddedColumn|
            apply_steps(m, plan_of(m))[Table::ScheduledTweets].contains(#[trigger] a.spec_name()),
        forall|t: Table|
            m.contains_key(t) && t != Table::ScheduledTweets && !(t == Table::ReplySettings
                && needs_rebuild(m)) ==> #[trigger] apply_steps(m, plan_of(m))[t] == m[t],
        !no_governed_table(m) ==> forall|j: int|
            0 <= j < plan_of(m).len() ==> #[trigger] plan_of(m)[j] != Step::FreshInstall,
{
    let p = plan_of(m);
    let n = apply_steps(m, p);
    lemma_upgrade_idempotent(m);
    assert forall|a: AddedColumn| n[Table::ScheduledTweets].contains(#[trigger] a.spec_name()) by {
        if !n[Table::ScheduledTweets].contains(a.spec_name()) {
            assert(needs_column(n, a));
            lemma_added_columns_complete(a);
            lemma_additions_contain(n, added_columns(), a);
            assert(!no_governed_table(n));
            assert(plan_of(n).len() > 0);
        }
    }
    if no_governed_table(m) {
        lemma_fresh_install(m);
        assert forall|t: Table| !m.contains_key(t) implies #[trigger] n[t] == column_set(t) by {}
    } else {
        let c = table_creations(m, creation_order());
        lemma_creations_no_duplicates(m, creation_order());
        assert forall|j: int| 0 <= j < p.len() implies #[trigger] p[j] != Step::FreshInstall by {
            lemma_plan_touches(m, j, Table::BotAccounts);
        }
        assert forall|t: Table| !m.contains_key(t) implies #[trigger] n[t] == column_set(t) by {
            lemma_creation_order_complete(t);
            lemma_creations_contain(m, creation_order(), t);
            let i0 = choose|i0: int| 0 <= i0 < c.len() && c[i0] == Step::CreateTable(t);
            assert(p[i0] == c[i0]);
            assert forall|j: int| i0 < j < p.len() implies !touches(#[trigger] p[j], t) by {
                lemma_plan_touches(m, j, t);
                if touches(p[j], t) {
                    assert(p[j] == c[j]);
                }
            }
            lemma_steps_set(m, p, i0, t);
        }
        if needs_rebuild(m) {
            let last = p.len() - 1;
            assert(p[last] == Step::RebuildReplySettings);
            lemma_steps_set(m, p, last, Table::ReplySettings);
        }
        if m.contains_key(Table::ScheduledTweets) {
            assert forall|j: int|
                0 <= j < p.len() && touches(#[trigger] p[j], Table::ScheduledTweets)
                    implies p[j] is AddColumn by {
                lemma_plan_touches(m, j, Table::ScheduledTweets);
            }
            lemma_steps_grow(m, p);
        }
        assert forall|t: Table|
            m.contains_key(t) && t != Table::ScheduledTweets && !(t == Table::ReplySettings
                && needs_rebuild(m)) implies #[trigger] n[t] == m[t] by {
            assert forall|j: int| 0 <= j < p.len() implies !touches(#[trigger] p[j], t) by {
                lemma_plan_touches(m, j, t);
            }
            lemma_steps_frame(m, p, t);
        }
    }
}

} // verus!
