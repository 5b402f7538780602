# coral

The decision logic and message text of the Coral Discord services (Hypixel
stats cards, a player blacklist with tags, evidence and community reviews,
account linking and role sync), written in Verus with its behaviour stated
in `requires`/`ensures` contracts and proved.

## Layout

- `src/` — the verified library, one module per concern:
  - text and numbers: `text`, `minecraft`, `stats_text`, `prestige`, `info_text`, `config`
  - tags and their posts: `tag_text`, `tag_history`, `tag_posts`, `guild_view`, `guild_notifs`,
    `watch`, `strikes`, `notices`, `access`
  - reviews: `review_text`, `review_state`, `review_blocks`, `review_votes`, `vote_store`,
    `review_forms`, `review_messages`, `review_scores`, `review_guard`, `review_pings`
  - evidence: `evidence_text`, `evidence_state`, `evidence_pick`, `evidence_manage`, `upload_plan`,
    `thread_index`
  - session cards: `session_menu`, `session_state`, `session_delta`, `auto_presets`
  - role sync: `sync_rules`, `sync_jobs`, `cooldowns`
  - Redis-backed limits and codes: `rate_limit`, `verify_code`
- `tests/` — tests run against the compiled library.
- `app/` — the Redis round trips of rate limiting and verification codes,
  and the figures computed in floating point. The Discord handlers, the
  database access and the timers that drive the library's decisions are not
  part of this repository: the Discord client and the database crate they
  need are not among its dependencies.

Calls into outside crates (`uuid`, `rand`, `redis`) go through a few small
wrappers whose contracts say what the crates' sources show; everything else
in `src/` is proved.
