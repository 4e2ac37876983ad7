# swc_plugins

The decision logic of a set of JavaScript source transforms (component
import rewriting, lodash cherry-picking, constant JSX hoisting, `propTypes`
removal, SSR loader ids, dynamic `import()` for Node, `core-js` pinning,
route configs) written in Verus, over plain-value models of the syntax the
transforms read and write.

- `src/` is the verified library. Every public function states in its
  contract what it returns or changes, over spec functions of the models;
  public `law_*` proof functions state properties that span calls.
- `tests/` runs the library on concrete inputs.
- `app/` is the unverified part: reading packages and fixtures from disk,
  calling the user's JavaScript functions for import paths, ending the
  process, and the serde forms of the options.
