//! A session store kept in Redis: each record is the identity string stored
//! under the token, with the record's lifetime given to Redis as the key's
//! expiry. Redis removes expired keys itself, so `now` plays no part here.
use vstd::prelude::*;
use crate::store::{KeyStorage, StoreError};

verus! {

#[verifier::external_type_specification]
#[verifier::external_body]
pub struct ExRedisConnection(redis::Connection);

#[verifier::external_type_specification]
#[verifier::external_body]
pub struct ExRedisError(redis::RedisError);

/// Relies on redis::Commands::get (GET): the string stored under `key`, or
/// nothing when the key is absent or expired. What comes back depends on the
/// server, so nothing more is stated.
#[verifier::external_body]
fn redis_get(conn: &mut redis::Connection, key: &[u8]) -> (r: Result<Option<String>, redis::RedisError>) {
    redis::Commands::get(conn, key)
}

/// Relies on redis::Commands::set_ex (SETEX): stores `value` under `key`
/// with an expiry of `seconds`. What comes back depends on the server.
#[verifier::external_body]
fn redis_set_ex(conn: &mut redis::Connection, key: &[u8], value: &str, seconds: u64) -> (r: Result<(), redis::RedisError>) {
    redis::Commands::set_ex(conn, key, value, seconds)
}

/// Relies on redis::Commands::del (DEL): removes `key`; an absent key is no
/// error to Redis. What comes back depends on the server.
#[verifier::external_body]
fn redis_del(conn: &mut redis::Connection, key: &[u8]) -> (r: Result<(), redis::RedisError>) {
    redis::Commands::del(conn, key)
}

/// Any Redis failure is the store being unavailable.
fn store_error(_e: redis::RedisError) -> (r: StoreError)
    ensures
        r == StoreError::Unavailable,
{
    StoreError::Unavailable
}

/// A session store over one Redis connection. Its contents live on the
/// server, out of the library's sight: it is never `is_modeled`.
pub struct RedisStore {
    conn: redis::Connection,
}

impl RedisStore {
    pub fn new(conn: redis::Connection) -> (r: Self)
        ensures
            !r.is_modeled(),
    {
        RedisStore { conn }
    }
}

impl KeyStorage for RedisStore {
    closed spec fn is_modeled(&self) -> bool {
        false
    }

    closed spec fn sessions(&self) -> Map<Seq<u8>, (Seq<char>, u64)> {
        Map::empty()
    }

    fn put(&mut self, token: &[u8], identity: &str, ttl: u64, _now: u64) -> (r: Result<(), StoreError>) {
        match redis_set_ex(&mut self.conn, token, identity, ttl) {
            Ok(()) => Ok(()),
            Err(e) => Err(store_error(e)),
        }
    }

    fn get(&mut self, token: &[u8], _now: u64) -> (r: Result<Option<String>, StoreError>) {
        match redis_get(&mut self.conn, token) {
            Ok(found) => Ok(found),
            Err(e) => Err(store_error(e)),
        }
    }

    fn delete(&mut self, token: &[u8]) -> (r: Result<(), StoreError>) {
        match redis_del(&mut self.conn, token) {
            Ok(()) => Ok(()),
            Err(e) => Err(store_error(e)),
        }
    }
}

} // verus!
