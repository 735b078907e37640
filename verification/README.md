# lunch_tray

The logic of a tray application that shows today's lunch menus of the
university restaurants in Kuopio, verified with Verus.

`src/` is the verified library:

- `menu_payload`, `api`: reading a lunch API menu response (or a daily
  snapshot of all restaurants) into the menu the popup shows: general offers
  first, dishes in the API's order, prices by audience, recipe details,
  closure notices.
- `normalize`, `allergens`, `price`, `format`: cleaning menu text, splitting
  allergen suffixes off dishes, reading and filtering price texts, headings
  and dates.
- `app_state`, `refresh`, `table`, `fetch`: the application state and the
  rules for when menus are fetched, retried, cached in memory and prefetched.
- `popup_lines`, `popup_logic`, `popup_size`, `cached_budget`,
  `text_layout`, `content_plan`, `highlights`, `selection`, `animation`,
  `themes`: what the popup shows and where, how its text is clipped,
  wrapped and measured (with widths the caller measures), the drawing
  operations of its content layer, favorite highlighting, text selection,
  animations and colors.
- `favorites`, `cache`, `settings`, `restaurant`, `helsinki`, `perf`,
  `bench`: favorite snippets, cache file names, settings, the restaurant
  table, the Helsinki date, performance counters and benchmark workloads.
- `laws`: properties that hold across calls.

`app/` is the program around it: reading and writing files, HTTP requests,
JSON decoding into the library's types, the clock, and floating-point
price values and reports.

`tests/` holds the tests.
