//! Prompts that ask a language model to write SoftQL for a question.

use vstd::prelude::*;

verus! {
/// How SoftQL reads, for the model.
pub const EXPLANATION_PROMPT: &'static str = r#"
    -- **SoftQL explanation (function-based DSL)**:
    SoftQL is a high-level query language that allows you to express queries in a more LLM-friendly way.

    0. Tables:
        - Each table is represented by a name (e.g., customers, yearmonth).

    1. Operators:
        - join(table, function_predicate): joins 'table' based on the given predicate
        - filter(function_predicate): filters rows based on the given predicate
        - aggregate(function_expression): aggregates rows based on the given expression
        - project(function_expression): projects/transforms rows based on the given expression
        - order(function_expression): orders rows based on the given expression

    2. Function-based Predicate:
        - A predicate is composed of one or more function calls, connected by logical operators: AND, OR, NOT.
        - You can invent any function name (e.g., equals, greater, etc.).
        - Example of a single condition (function call):
            equals(customers.customerid, yearmonth.customerid)
        - Example of multiple conditions:
            equals(person.city, 'Seoul') AND greater(person.age, 20)
        - You can also use NOT:
            equals(person.city, 'Seoul') AND NOT greater(person.age, 20)

    3. Function-based Expression:
        - An expression describes a single aggregation, transformation, or ordering rule, also written as a function call.
        - Again, there is no predefined set of function names; you can create your own.
        - Example:
            calcSum(sales.amount)
            convertDateToYear(user.birthday)
            customers.last_purchase_date
        - You can nest function calls if needed:
            round(calcAverage(ratings.score))

    5. Chaining & Syntax:
        - Use dot chaining for multiple operators (e.g., table.join().join().filter().aggregate().project().order()).
        - Operators must be in the following order: join() -> filter() -> aggregate() -> project() -> order().
        - You can use the same operator multiple times if necessary (e.g., .join().join()...).
    "#;
/// Worked example: a schema, a question and its SoftQL.
pub const FEW_SHOT_PROMPT: &'static str = r#"CREATE TABLE singer
                        (
                            singer_id   TEXT NOT NULL PRIMARY KEY,
                            nation      TEXT NOT NULL,
                            sname       TEXT NULL,
                            dname       TEXT NULL,
                            cname       TEXT NULL,
                            age         INTEGER NOT NULL,
                            year        INTEGER NOT NULL,
                            birth_year  INTEGER NULL,
                            salary      REAL NULL,
                            city        TEXT NULL,
                            phone_number INTEGER NULL
                        );

                        CREATE TABLE song
                        (
                            song_id      TEXT NOT NULL PRIMARY KEY,
                            title        TEXT NOT NULL,
                            singer_id    TEXT NOT NULL,
                            release_year INTEGER NOT NULL,
                            FOREIGN KEY (singer_id) REFERENCES singer (singer_id)
                        );
                        
-- External Knowledge: age = year - birth_year;
                                 -- Using valid PostgreSQL and external knowledge, answer the following question for the tables provided above.
                                 -- How many songs are sung by singers in the USA who are older than 27?
                                 Generate the SoftQL for the above question after thinking step by step.
song.join(singer, equals(song.singer_id, singer.singer_id))
                                    .filter(equals(singer.nation, 'USA') AND greater(minus(singer.year, singer.birth_year), 27))
                                    .aggregate(count(song.song_id))"#;
/// What the answer must and must not hold.
pub const INSTRUCTION_PROMPT: &'static str = r#"
    In your response, you do not need to mention your intermediate steps.
    Do not include any comments in your response.
    Do not need to start with the symbol ```
    Do not generate the SQL code.
    You only need to return the result SoftQL code.
    Be careful about the order of operators (join() -> filter() -> group() -> map() -> order())
    "#;
/// The request to reason step by step.
pub const COT_PROMPT: &'static str = r#"
Generate the SoftQL for the above question after thinking step by step: "#;
pub const COMMENT_HEAD: &'static str = "-- External Knowledge: ";
pub const COMMENT_MIDDLE: &'static str = r#"\n
       -- Using valid PostgreSQL and understanding External Knowledge, answer the following questions for the tables provided above.
       -- "#;
pub const COMMENT_TAIL: &'static str = r#"
    "#;
/// Text between the parts of the full prompt.
pub const PART_SEPARATOR: &'static str = r#"
        "#;
pub const PROMPT_TAIL: &'static str = r#"
        "#;

/// A comment that gives the external knowledge and the question.
pub fn generate_comment_prompt(context: &str, query: &str) -> (r: String)
    ensures
        r@ == COMMENT_HEAD@ + context@ + COMMENT_MIDDLE@ + query@ + COMMENT_TAIL@,
{
    let mut r = COMMENT_HEAD.to_owned();
    r.append(context);
    r.append(COMMENT_MIDDLE);
    r.append(query);
    r.append(COMMENT_TAIL);
    r
}

pub fn generate_cot_prompt() -> (r: String)
    ensures
        r@ == COT_PROMPT@,
{
    COT_PROMPT.to_owned()
}

pub fn generate_instruction_prompt() -> (r: String)
    ensures
        r@ == INSTRUCTION_PROMPT@,
{
    INSTRUCTION_PROMPT.to_owned()
}

pub fn generate_few_shot_prompt() -> (r: String)
    ensures
        r@ == FEW_SHOT_PROMPT@,
{
    FEW_SHOT_PROMPT.to_owned()
}

pub fn generate_softql_explanation_prompt() -> (r: String)
    ensures
        r@ == EXPLANATION_PROMPT@,
{
    EXPLANATION_PROMPT.to_owned()
}

/// The full prompt: explanation, worked example, the schema, the question,
/// the request to reason, and the instructions, in that order.
pub fn generate_text2softql_prompt(schema: &str, context: &str, query: &str) -> (r: String)
    ensures
        r@ == EXPLANATION_PROMPT@ + PART_SEPARATOR@ + FEW_SHOT_PROMPT@ + PART_SEPARATOR@ + schema@
            + PART_SEPARATOR@ + (COMMENT_HEAD@ + context@ + COMMENT_MIDDLE@ + query@ + COMMENT_TAIL@)
            + PART_SEPARATOR@ + COT_PROMPT@ + PART_SEPARATOR@ + INSTRUCTION_PROMPT@ + PROMPT_TAIL@,
{
    let mut r = generate_softql_explanation_prompt();
    r.append(PART_SEPARATOR);
    r.append(generate_few_shot_prompt().as_str());
    r.append(PART_SEPARATOR);
    r.append(schema);
    r.append(PART_SEPARATOR);
    r.append(generate_comment_prompt(context, query).as_str());
    r.append(PART_SEPARATOR);
    r.append(generate_cot_prompt().as_str());
    r.append(PART_SEPARATOR);
    r.append(generate_instruction_prompt().as_str());
    r.append(PROMPT_TAIL);
    r
}

} // verus!
