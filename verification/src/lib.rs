//! A limit-order book that rests on top of an automated-market-maker pool.
//!
//! `msg` holds the messages and the stored records, `order` the life of a
//! single order, `model` the book as a mathematical value with its laws,
//! `audit` the test of a book's well-formedness,
//! `book` the order store with the matching and settlement engine,
//! `handle` the reading and answering of messages, `gateway` the key-gated
//! queries, and `framing` the padding of messages to whole blocks.

pub mod audit;
pub mod book;
pub mod framing;
pub mod gateway;
pub mod handle;
pub mod model;
pub mod msg;
pub mod order;
